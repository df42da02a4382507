//! Documents cut into fragments, stored, and found again.
use vstd::prelude::*;

use crate::compose::ProviderResult;
use crate::error;
use crate::error::RustlizaError;
use crate::bytes;
use crate::ids::{AgentId, MemoryId, RoomId};
use crate::lines;
use crate::number;
use crate::passages;
use crate::search;
use crate::search::BM25;
use crate::text;
use crate::time::Timestamp;
use crate::types::{Content, GetMemoriesParams, Memory, MemoryType, Metadata, SearchMemoriesParams};

verus! {

// ---------------------------------------------------------------------------
// Chunks
// ---------------------------------------------------------------------------

/// How a document is cut: the words of a chunk, and those that it shares with
/// the next one.
#[derive(Clone, Copy, Debug, PartialEq, Eq, Structural)]
pub struct ChunkOptions {
    pub chunk_size: usize,
    pub chunk_overlap: usize,
}

impl Default for ChunkOptions {
    fn default() -> (r: Self)
        ensures
            r.chunk_size == 512,
            r.chunk_overlap == 64,
    {
        ChunkOptions { chunk_size: 512, chunk_overlap: 64 }
    }
}

/// The ranges of words that make up the chunks from the one that begins at
/// `start` on: each of `size` words, but the last, and each but the first
/// begins `overlap` words before the end of the one before.
pub open spec fn chunk_ranges(n: nat, size: nat, overlap: nat, start: nat) -> Seq<(int, int)>
    decreases n - start,
{
    if start >= n || overlap >= size {
        Seq::empty()
    } else if start + size >= n {
        seq![(start as int, n as int)]
    } else {
        seq![(start as int, (start + size) as int)] + chunk_ranges(
            n,
            size,
            overlap,
            (start + size - overlap) as nat,
        )
    }
}

/// The words of a range with a space between each two.
pub open spec fn chunk_of(words: Seq<Seq<char>>, range: (int, int)) -> Seq<char> {
    lines::joined(words.subrange(range.0, range.1), " "@)
}

/// The chunks of a text: the text itself where it has no more words than a
/// chunk may have.
pub open spec fn chunks_of(s: Seq<char>, options: ChunkOptions) -> Seq<Seq<char>> {
    let words = lines::words_of(s);
    if words.len() <= options.chunk_size {
        seq![s]
    } else {
        chunk_ranges(
            words.len(),
            options.chunk_size as nat,
            options.chunk_overlap as nat,
            0,
        ).map_values(|r: (int, int)| chunk_of(words, r))
    }
}

/// The options can cut a text: consecutive chunks make progress.
pub open spec fn can_cut(s: Seq<char>, options: ChunkOptions) -> bool {
    lines::words_of(s).len() <= options.chunk_size || options.chunk_overlap < options.chunk_size
}

/// Whether the options can cut a text.
pub fn options_can_cut(s: &str, options: &ChunkOptions) -> (r: bool)
    ensures
        r == can_cut(s@, *options),
{
    let words = lines::words(s);
    assert(text::texts(words@).len() == words@.len());
    words.len() <= options.chunk_size || options.chunk_overlap < options.chunk_size
}

/// The words of a range with a space between each two.
fn join_range(words: &Vec<String>, from: usize, to: usize) -> (r: String)
    requires
        from <= to <= words@.len(),
    ensures
        r@ == chunk_of(text::texts(words@), (from as int, to as int)),
{
    let mut part: Vec<String> = Vec::new();
    let ghost all = text::texts(words@);
    let mut i: usize = from;
    while i < to
        invariant
            from <= i <= to <= words@.len(),
            all == text::texts(words@),
            text::texts(part@) == all.subrange(from as int, i as int),
        decreases to - i,
    {
        let ghost before = part@;
        part.push(words[i].clone());
        proof {
            assert(text::texts(part@) =~= text::texts(before).push(all[i as int]));
            assert(all.subrange(from as int, i + 1) =~= all.subrange(from as int, i as int).push(
                all[i as int],
            ));
        }
        i = i + 1;
    }
    lines::join(&part, " ")
}

/// The chunks of a text.
pub fn chunk_text(s: &str, options: &ChunkOptions) -> (r: Vec<String>)
    requires
        can_cut(s@, *options),
    ensures
        text::texts(r@) == chunks_of(s@, *options),
{
    let words = lines::words(s);
    let ghost ws = text::texts(words@);
    let mut out: Vec<String> = Vec::new();
    if words.len() <= options.chunk_size {
        out.push(s.to_owned());
        assert(text::texts(out@) =~= seq![s@]);
        return out;
    }
    let n = words.len();
    let size = options.chunk_size;
    let overlap = options.chunk_overlap;
    let ghost f = |r: (int, int)| chunk_of(ws, r);
    let mut start: usize = 0;
    let ghost total = chunk_ranges(n as nat, size as nat, overlap as nat, 0).map_values(f);
    assert(text::texts(out@) + total =~= total);
    loop
        invariant_except_break
            total == text::texts(out@) + chunk_ranges(
                n as nat,
                size as nat,
                overlap as nat,
                start as nat,
            ).map_values(f),
        invariant
            start < n == words@.len(),
            overlap < size < n,
            ws == text::texts(words@),
            f == (|r: (int, int)| chunk_of(ws, r)),
        ensures
            text::texts(out@) == total,
        decreases n - start,
    {
        let end: usize = if n - start <= size {
            n
        } else {
            start + size
        };
        let chunk = join_range(&words, start, end);
        let ghost before = out@;
        out.push(chunk);
        proof {
            assert(text::texts(out@) =~= text::texts(before).push(chunk@));
            let here = chunk_ranges(n as nat, size as nat, overlap as nat, start as nat);
            if end < n {
                let rest = chunk_ranges(
                    n as nat,
                    size as nat,
                    overlap as nat,
                    (end - overlap) as nat,
                );
                assert(here =~= seq![(start as int, end as int)] + rest);
                assert(here.map_values(f) =~= seq![chunk@] + rest.map_values(f));
                assert(text::texts(before) + (seq![chunk@] + rest.map_values(f)) =~= text::texts(
                    before,
                ).push(chunk@) + rest.map_values(f));
            } else {
                assert(here.map_values(f) =~= seq![chunk@]);
                assert(text::texts(before) + seq![chunk@] =~= text::texts(before).push(chunk@));
            }
        }
        if end >= n {
            break;
        }
        start = end - overlap;
    }
    out
}

/// The chunks of a long text cover all of its words: the first begins with the
/// first word and the last ends with the last; each but the last has the full
/// size, and shares its last words, as many as the overlap, with the next.
pub proof fn chunks_cover_the_text(n: nat, size: nat, overlap: nat, start: nat)
    requires
        start < n,
        overlap < size,
    ensures
        ({
            let r = chunk_ranges(n, size, overlap, start);
            &&& r.len() > 0
            &&& r[0].0 == start
            &&& r.last().1 == n
            &&& forall|i: int| 0 <= i < r.len() ==> start <= (#[trigger] r[i]).0 < r[i].1 <= n
            &&& forall|i: int|
                0 <= i < r.len() - 1 ==> (#[trigger] r[i]).1 - r[i].0 == size && r[i + 1].0 == r[i].1
                    - overlap
        }),
    decreases n - start,
{
    if start + size < n {
        let next = (start + size - overlap) as nat;
        chunks_cover_the_text(n, size, overlap, next);
        let rest = chunk_ranges(n, size, overlap, next);
        let r = chunk_ranges(n, size, overlap, start);
        assert(r =~= seq![(start as int, (start + size) as int)] + rest);
        assert(r.last() == rest.last());
        assert forall|i: int| 0 <= i < r.len() - 1 implies (#[trigger] r[i]).1 - r[i].0 == size && r[i
            + 1].0 == r[i].1 - overlap by {
            if i > 0 {
                assert(r[i] == rest[i - 1]);
                assert(r[i + 1] == rest[i]);
            } else {
                assert(r[1] == rest[0]);
            }
        }
        assert forall|i: int| 0 <= i < r.len() implies start <= (#[trigger] r[i]).0 < r[i].1 <= n by {
            if i > 0 {
                assert(r[i] == rest[i - 1]);
            }
        }
    }
}

// ---------------------------------------------------------------------------
// Ingestion
// ---------------------------------------------------------------------------

/// The memory stands for a document: its title, and how long its text is.
pub open spec fn is_document(
    m: Memory,
    id: MemoryId,
    at: Timestamp,
    agent_id: AgentId,
    room_id: RoomId,
    title: Seq<char>,
    body: Seq<char>,
) -> bool {
    &&& m.content.is(Some(title), None, None)
    &&& m.id == id
    &&& m.entity_id == agent_id
    &&& m.agent_id == agent_id
    &&& m.room_id == room_id
    &&& m.world_id is None
    &&& m.unique
    &&& m.created_at == Some(at)
    &&& m.embedding is None
    &&& m.metadata is Some
    &&& m.metadata.unwrap() is Document
    &&& m.metadata.unwrap()->title@ == title
    &&& m.metadata.unwrap()->total_length == bytes::byte_len(body)
    &&& m.memory_type == MemoryType::Document
}

/// The memory that stands for a document: its title, and how long its text is.
pub fn document_memory(
    id: MemoryId,
    at: Timestamp,
    agent_id: AgentId,
    room_id: RoomId,
    title: &str,
    body: &str,
) -> (r: Memory)
    ensures
        is_document(r, id, at, agent_id, room_id, title@, body@),
{
    Memory {
        id,
        content: Content::text(title),
        entity_id: agent_id,
        agent_id,
        room_id,
        world_id: None,
        unique: true,
        created_at: Some(at),
        embedding: None,
        metadata: Some(
            Metadata::Document { title: title.to_owned(), total_length: bytes::len(body) },
        ),
        memory_type: MemoryType::Document,
    }
}

/// A document in the course of being ingested.
pub struct Ingestion {
    pub document_id: MemoryId,
    pub agent_id: AgentId,
    pub room_id: RoomId,
    pub chunks: Vec<String>,
    /// The fragments that have been stored.
    pub fragment_ids: Vec<MemoryId>,
}

/// `m` is the memory of a fragment.
pub open spec fn is_fragment(
    m: Memory,
    id: MemoryId,
    at: Timestamp,
    ing: Ingestion,
    index: int,
    embedding: Seq<u32>,
) -> bool {
    &&& m.id == id
    &&& m.content.is(Some(ing.chunks@[index]@), None, None)
    &&& m.entity_id == ing.agent_id
    &&& m.agent_id == ing.agent_id
    &&& m.room_id == ing.room_id
    &&& m.world_id is None
    &&& m.unique
    &&& m.created_at == Some(at)
    &&& m.embedding is Some
    &&& m.embedding.unwrap()@ == embedding
    &&& m.metadata == Some(
        Metadata::Fragment {
            document_id: ing.document_id,
            chunk_index: index as usize,
            total_chunks: ing.chunks@.len() as usize,
        },
    )
    &&& m.memory_type == MemoryType::Fragment
}

impl Ingestion {
    /// The ingestion is that of this document.
    pub open spec fn is_of(
        self,
        document_id: MemoryId,
        agent_id: AgentId,
        room_id: RoomId,
        body: Seq<char>,
        options: ChunkOptions,
    ) -> bool {
        &&& self.document_id == document_id
        &&& self.agent_id == agent_id
        &&& self.room_id == room_id
        &&& text::texts(self.chunks@) == chunks_of(body, options)
    }

    /// Cuts a document into its chunks.
    pub fn begin(
        document_id: MemoryId,
        agent_id: AgentId,
        room_id: RoomId,
        body: &str,
        options: &ChunkOptions,
    ) -> (r: Self)
        requires
            can_cut(body@, *options),
        ensures
            r.is_of(document_id, agent_id, room_id, body@, *options),
            r.fragment_ids@.len() == 0,
    {
        Ingestion {
            document_id,
            agent_id,
            room_id,
            chunks: chunk_text(body, options),
            fragment_ids: Vec::new(),
        }
    }

    /// The chunk whose turn it is; none where all of them are stored.
    pub fn current(&self) -> (r: Option<&String>)
        ensures
            match r {
                Some(c) => self.fragment_ids@.len() < self.chunks@.len() && *c
                    == self.chunks@[self.fragment_ids@.len() as int],
                None => self.fragment_ids@.len() >= self.chunks@.len(),
            },
    {
        let i = self.fragment_ids.len();
        if i < self.chunks.len() {
            Some(&self.chunks[i])
        } else {
            None
        }
    }

    /// The memory of the fragment whose turn it is, with its embedding.
    pub fn fragment(&self, id: MemoryId, at: Timestamp, embedding: Vec<u32>) -> (r: Memory)
        requires
            self.fragment_ids@.len() < self.chunks@.len(),
        ensures
            is_fragment(r, id, at, *self, self.fragment_ids@.len() as int, embedding@),
    {
        let i = self.fragment_ids.len();
        Memory {
            id,
            content: Content::text(self.chunks[i].as_str()),
            entity_id: self.agent_id,
            agent_id: self.agent_id,
            room_id: self.room_id,
            world_id: None,
            unique: true,
            created_at: Some(at),
            embedding: Some(embedding),
            metadata: Some(
                Metadata::Fragment {
                    document_id: self.document_id,
                    chunk_index: i,
                    total_chunks: self.chunks.len(),
                },
            ),
            memory_type: MemoryType::Fragment,
        }
    }

    /// Notes that the fragment whose turn it was has been stored.
    pub fn stored(&mut self, id: MemoryId)
        ensures
            *final(self) == (Ingestion { fragment_ids: final(self).fragment_ids, ..*old(self) }),
            final(self).fragment_ids@ == old(self).fragment_ids@.push(id),
    {
        self.fragment_ids.push(id);
    }
}

/// The error of an ingestion whose embedding failed.
pub fn embedding_error(e: &RustlizaError) -> (r: RustlizaError)
    ensures
        r is Other,
        r->Other_0@ == "embedding generation failed: "@ + e.text(),
{
    RustlizaError::Other(error::prefixed("embedding generation failed: ", e.message().as_str()))
}

// ---------------------------------------------------------------------------
// Retrieval
// ---------------------------------------------------------------------------

/// The fragments are searched by embedding for twice as many as are wanted.
pub open spec fn looks_for(
    p: SearchMemoriesParams,
    embedding: Vec<u32>,
    agent_id: AgentId,
    top_k: nat,
) -> bool {
    &&& p.embedding == embedding
    &&& p.room_id is None
    &&& p.agent_id == agent_id
    &&& p.memory_type == Some(MemoryType::Fragment)
    &&& p.match_threshold == number::POINT_3
    &&& p.match_count == top_k * 2
    &&& p.unique is None
}

/// The search for fragments by embedding: twice as many as are wanted.
pub fn vector_params(embedding: Vec<u32>, agent_id: AgentId, top_k: usize) -> (r:
    SearchMemoriesParams)
    requires
        top_k * 2 <= usize::MAX,
    ensures
        looks_for(r, embedding, agent_id, top_k as nat),
{
    SearchMemoriesParams {
        embedding,
        room_id: None,
        agent_id,
        memory_type: Some(MemoryType::Fragment),
        match_threshold: number::POINT_3,
        match_count: top_k * 2,
        unique: None,
    }
}

/// These fragments are searched by keyword.
pub open spec fn looks_through(p: GetMemoriesParams, agent_id: AgentId) -> bool {
    &&& p.room_id is None
    &&& p.agent_id == Some(agent_id)
    &&& p.entity_id is None
    &&& p.memory_type == Some(MemoryType::Fragment)
    &&& p.unique is None
    &&& p.count == Some(500usize)
}

/// The fragments that are searched by keyword.
pub fn fragment_params(agent_id: AgentId) -> (r: GetMemoriesParams)
    ensures
        looks_through(r, agent_id),
{
    GetMemoriesParams {
        room_id: None,
        agent_id: Some(agent_id),
        entity_id: None,
        memory_type: Some(MemoryType::Fragment),
        unique: None,
        count: Some(500),
    }
}

/// The tokens of each memory's text.
pub open spec fn memory_tokens(memories: Seq<Memory>) -> Seq<Seq<Seq<char>>> {
    memories.map_values(
        |m: Memory| search::tokens_of(search::normal_form(text::text_or_empty(m.content.text))),
    )
}

/// The keyword index over fragments.
pub fn index_fragments(fragments: &Vec<Memory>) -> (r: BM25)
    ensures
        r.wf(),
        r@ == memory_tokens(fragments@),
{
    let mut bm25 = BM25::new();
    let mut i: usize = 0;
    assert(bm25@ =~= memory_tokens(fragments@.take(0)));
    while i < fragments.len()
        invariant
            i <= fragments@.len(),
            bm25.wf(),
            bm25@ == memory_tokens(fragments@.take(i as int)),
        decreases fragments.len() - i,
    {
        let body = match &fragments[i].content.text {
            Some(t) => t.clone(),
            None => String::new(),
        };
        assert(body@ =~= text::text_or_empty(fragments@[i as int].content.text));
        let ghost before = bm25@;
        let _idx = bm25.add_document(body.as_str());
        assert(memory_tokens(fragments@.take(i + 1)) =~= before.push(
            search::tokens_of(search::normal_form(body@)),
        ));
        i = i + 1;
    }
    assert(fragments@.take(fragments@.len() as int) =~= fragments@);
    bm25
}

/// A memory that was found: by embedding or by keyword, with its position among
/// the results of that search or among the fragments.
#[derive(Clone, Copy, Debug, PartialEq, Eq, Structural)]
pub enum Pick {
    Vector(usize),
    Fragment(usize),
}

/// The identifier of a memory that was found.
pub open spec fn id_of(vector: Seq<MemoryId>, fragments: Seq<MemoryId>, p: Pick) -> MemoryId {
    match p {
        Pick::Vector(i) => vector[i as int],
        Pick::Fragment(i) => fragments[i as int],
    }
}

/// The picks whose identifier no earlier one has.
pub open spec fn first_picks(
    vector: Seq<MemoryId>,
    fragments: Seq<MemoryId>,
    picks: Seq<Pick>,
) -> Seq<Pick>
    decreases picks.len(),
{
    if picks.len() == 0 {
        Seq::empty()
    } else {
        let kept = first_picks(vector, fragments, picks.drop_last());
        if exists|j: int|
            0 <= j < kept.len() && id_of(vector, fragments, #[trigger] kept[j]) == id_of(
                vector,
                fragments,
                picks.last(),
            ) {
            kept
        } else {
            kept.push(picks.last())
        }
    }
}

/// All results of the search by embedding, and behind them those of the search
/// by keyword that are fragments.
pub open spec fn candidates(vector: Seq<MemoryId>, fragments: Seq<MemoryId>, keyword: Seq<usize>) -> Seq<
    Pick,
> {
    Seq::new(vector.len(), |i: int| Pick::Vector(i as usize)) + keyword.filter(
        |i: usize| i < fragments.len(),
    ).map_values(|i: usize| Pick::Fragment(i))
}

/// `s` cut off after at most `n` items.
pub open spec fn at_most<T>(s: Seq<T>, n: nat) -> Seq<T> {
    if s.len() <= n {
        s
    } else {
        s.take(n as int)
    }
}

/// Adds a pick unless one with its identifier is there.
fn add_pick(
    out: &mut Vec<Pick>,
    vector: &Vec<MemoryId>,
    fragments: &Vec<MemoryId>,
    pick: Pick,
    Ghost(seen): Ghost<Seq<Pick>>,
)
    requires
        old(out)@ == first_picks(vector@, fragments@, seen),
        match pick {
            Pick::Vector(i) => i < vector@.len(),
            Pick::Fragment(i) => i < fragments@.len(),
        },
        forall|j: int|
            0 <= j < old(out)@.len() ==> match #[trigger] old(out)@[j] {
                Pick::Vector(i) => i < vector@.len(),
                Pick::Fragment(i) => i < fragments@.len(),
            },
    ensures
        final(out)@ == first_picks(vector@, fragments@, seen.push(pick)),
        forall|j: int|
            0 <= j < final(out)@.len() ==> match #[trigger] final(out)@[j] {
                Pick::Vector(i) => i < vector@.len(),
                Pick::Fragment(i) => i < fragments@.len(),
            },
{
    let id = match pick {
        Pick::Vector(i) => vector[i],
        Pick::Fragment(i) => fragments[i],
    };
    assert(seen.push(pick).drop_last() =~= seen);
    let mut j: usize = 0;
    while j < out.len()
        invariant
            j <= out@.len(),
            out@ == old(out)@,
            out@ == first_picks(vector@, fragments@, seen),
            seen.push(pick).drop_last() == seen,
            id == id_of(vector@, fragments@, pick),
            forall|k: int|
                0 <= k < j ==> id_of(vector@, fragments@, #[trigger] out@[k]) != id_of(
                    vector@,
                    fragments@,
                    pick,
                ),
            forall|k: int|
                0 <= k < out@.len() ==> match #[trigger] out@[k] {
                    Pick::Vector(i) => i < vector@.len(),
                    Pick::Fragment(i) => i < fragments@.len(),
                },
        decreases out.len() - j,
    {
        assert(match out@[j as int] {
            Pick::Vector(i) => i < vector@.len(),
            Pick::Fragment(i) => i < fragments@.len(),
        });
        let other = match out[j] {
            Pick::Vector(i) => vector[i],
            Pick::Fragment(i) => fragments[i],
        };
        if other == id {
            proof {
                let kept = first_picks(vector@, fragments@, seen);
                assert(kept[j as int] == out@[j as int]);
                assert(id_of(vector@, fragments@, kept[j as int]) == id_of(
                    vector@,
                    fragments@,
                    pick,
                ));
            }
            return;
        }
        j = j + 1;
    }
    out.push(pick);
}

/// The results of both searches without repetition, those by embedding first,
/// at most `top_k` of them.
pub open spec fn merged(
    vector: Seq<MemoryId>,
    fragments: Seq<MemoryId>,
    keyword: Seq<usize>,
    top_k: nat,
) -> Seq<Pick> {
    at_most(first_picks(vector, fragments, candidates(vector, fragments, keyword)), top_k)
}

/// The results of both searches without repetition, those by embedding first,
/// at most `top_k` of them.
pub fn merge_results(
    vector: &Vec<MemoryId>,
    fragments: &Vec<MemoryId>,
    keyword: &Vec<usize>,
    top_k: usize,
) -> (r: Vec<Pick>)
    ensures
        r@ == merged(vector@, fragments@, keyword@, top_k as nat),
{
    let mut out: Vec<Pick> = Vec::new();
    let ghost front = Seq::new(vector@.len(), |i: int| Pick::Vector(i as usize));
    let mut i: usize = 0;
    assert(front.take(0) =~= Seq::<Pick>::empty());
    while i < vector.len()
        invariant
            i <= vector@.len(),
            front == Seq::new(vector@.len(), |i: int| Pick::Vector(i as usize)),
            out@ == first_picks(vector@, fragments@, front.take(i as int)),
            forall|j: int|
                0 <= j < out@.len() ==> match #[trigger] out@[j] {
                    Pick::Vector(i) => i < vector@.len(),
                    Pick::Fragment(i) => i < fragments@.len(),
                },
        decreases vector.len() - i,
    {
        add_pick(&mut out, vector, fragments, Pick::Vector(i), Ghost(front.take(i as int)));
        assert(front.take(i as int).push(Pick::Vector(i)) =~= front.take(i + 1));
        i = i + 1;
    }
    let ghost p = |i: usize| i < fragments@.len();
    let ghost f = |i: usize| Pick::Fragment(i);
    let mut k: usize = 0;
    proof {
        reveal(Seq::filter);
        assert(front.take(vector@.len() as int) =~= front);
        assert(front + keyword@.take(0).filter(p).map_values(f) =~= front);
    }
    while k < keyword.len()
        invariant
            k <= keyword@.len(),
            p == (|i: usize| i < fragments@.len()),
            f == (|i: usize| Pick::Fragment(i)),
            out@ == first_picks(
                vector@,
                fragments@,
                front + keyword@.take(k as int).filter(p).map_values(f),
            ),
            forall|j: int|
                0 <= j < out@.len() ==> match #[trigger] out@[j] {
                    Pick::Vector(i) => i < vector@.len(),
                    Pick::Fragment(i) => i < fragments@.len(),
                },
        decreases keyword.len() - k,
    {
        proof {
            reveal(Seq::filter);
            assert(keyword@.take(k + 1).drop_last() =~= keyword@.take(k as int));
            assert(keyword@.take(k + 1).last() == keyword@[k as int]);
        }
        let ghost seen = front + keyword@.take(k as int).filter(p).map_values(f);
        if keyword[k] < fragments.len() {
            add_pick(&mut out, vector, fragments, Pick::Fragment(keyword[k]), Ghost(seen));
            proof {
                let before = keyword@.take(k as int).filter(p);
                assert(before.push(keyword@[k as int]).map_values(f) =~= before.map_values(f).push(
                    Pick::Fragment(keyword@[k as int]),
                ));
                assert(seen.push(Pick::Fragment(keyword@[k as int])) =~= front + before.push(
                    keyword@[k as int],
                ).map_values(f));
            }
        }
        k = k + 1;
    }
    assert(keyword@.take(keyword@.len() as int) =~= keyword@);
    if out.len() > top_k {
        out.truncate(top_k);
    }
    out
}

/// No memory is given twice.
pub proof fn picks_are_distinct(
    vector: Seq<MemoryId>,
    fragments: Seq<MemoryId>,
    picks: Seq<Pick>,
)
    ensures
        ({
            let kept = first_picks(vector, fragments, picks);
            forall|i: int, j: int|
                0 <= i < j < kept.len() ==> id_of(vector, fragments, #[trigger] kept[i]) != id_of(
                    vector,
                    fragments,
                    #[trigger] kept[j],
                )
        }),
    decreases picks.len(),
{
    if picks.len() > 0 {
        picks_are_distinct(vector, fragments, picks.drop_last());
        let before = first_picks(vector, fragments, picks.drop_last());
        let kept = first_picks(vector, fragments, picks);
        assert forall|i: int, j: int| 0 <= i < j < kept.len() implies id_of(
            vector,
            fragments,
            #[trigger] kept[i],
        ) != id_of(vector, fragments, #[trigger] kept[j]) by {
            assert(kept[i] == before[i]);
            if j < before.len() {
                assert(kept[j] == before[j]);
            }
        }
    }
}

// ---------------------------------------------------------------------------
// What is told of the memories that were found
// ---------------------------------------------------------------------------

/// The texts of the memories that have one.
pub open spec fn memory_texts(memories: Seq<Memory>) -> Seq<Seq<char>>
    decreases memories.len(),
{
    if memories.len() == 0 {
        Seq::empty()
    } else {
        let front = memory_texts(memories.drop_last());
        match memories.last().content.text {
            Some(t) => front.push(t@),
            None => front,
        }
    }
}

/// The texts of the memories that have one.
pub fn collect_texts(memories: &Vec<Memory>) -> (r: Vec<String>)
    ensures
        text::texts(r@) == memory_texts(memories@),
{
    let mut out: Vec<String> = Vec::new();
    let mut i: usize = 0;
    assert(text::texts(out@) =~= memory_texts(memories@.take(0)));
    while i < memories.len()
        invariant
            i <= memories@.len(),
            text::texts(out@) == memory_texts(memories@.take(i as int)),
        decreases memories.len() - i,
    {
        proof {
            assert(memories@.take(i + 1).drop_last() =~= memories@.take(i as int));
            assert(memories@.take(i + 1).last() == memories@[i as int]);
        }
        match &memories[i].content.text {
            Some(t) => {
                let ghost before = out@;
                out.push(t.clone());
                assert(text::texts(out@) =~= text::texts(before).push(t@));
            },
            None => {},
        }
        i = i + 1;
    }
    assert(memories@.take(memories@.len() as int) =~= memories@);
    out
}

/// Each text behind its number.
pub open spec fn numbered(items: Seq<Seq<char>>) -> Seq<Seq<char>> {
    Seq::new(
        items.len(),
        |i: int| "["@ + number::decimal((i + 1) as nat) + "] "@ + items[i],
    )
}

/// Each text behind its number.
fn number_texts(items: &Vec<String>) -> (r: Vec<String>)
    ensures
        text::texts(r@) == numbered(text::texts(items@)),
{
    let ghost all = numbered(text::texts(items@));
    let mut out: Vec<String> = Vec::new();
    let mut i: usize = 0;
    while i < items.len()
        invariant
            i <= items@.len(),
            all == numbered(text::texts(items@)),
            text::texts(out@) == all.take(i as int),
        decreases items.len() - i,
    {
        let mut line = "[".to_owned();
        line.append(number::decimal_text(i as u64 + 1).as_str());
        line.append("] ");
        line.append(items[i].as_str());
        let ghost before = out@;
        out.push(line);
        proof {
            assert(text::texts(out@) =~= text::texts(before).push(line@));
            assert(all.take(i + 1) =~= all.take(i as int).push(all[i as int]));
        }
        i = i + 1;
    }
    assert(all.take(items@.len() as int) =~= all);
    out
}

/// Whether there is anything to look for: the message has a text.
pub fn knowledge_query(message: &Memory) -> (r: Option<String>)
    ensures
        text::opt_text(r) == if text::text_or_empty(message.content.text).len() > 0 {
            Some(text::text_or_empty(message.content.text))
        } else {
            None
        },
{
    match &message.content.text {
        Some(t) => if t.as_str().unicode_len() > 0 {
            Some(t.clone())
        } else {
            None
        },
        None => None,
    }
}

/// This is told of the knowledge that was found: nothing where none was.
pub open spec fn tells_knowledge(found: Seq<Memory>, r: ProviderResult) -> bool {
    &&& text::opt_text(r.text) == if found.len() == 0 {
        None
    } else {
        Some("Relevant knowledge:\n"@ + lines::joined(numbered(memory_texts(found)), "\n\n"@))
    }
    &&& r.values@ == Map::<Seq<char>, Seq<char>>::empty()
    &&& r.data is None
}

/// What the agent is told of the knowledge that was found; nothing where none
/// was.
pub fn knowledge_result(found: &Vec<Memory>) -> (r: ProviderResult)
    ensures
        tells_knowledge(found@, r),
{
    let mut r = ProviderResult::default();
    if found.len() > 0 {
        let items = number_texts(&collect_texts(found));
        r.text = Some(error::prefixed("Relevant knowledge:\n", lines::join(&items, "\n\n").as_str()));
    }
    r
}

/// The texts of memories are the texts of those that have one, in their order.
pub proof fn lemma_memory_texts(memories: Seq<Memory>)
    ensures
        memory_texts(memories) == memories.filter(
            |m: Memory| m.content.text is Some,
        ).map_values(|m: Memory| m.content.text.unwrap()@),
    decreases memories.len(),
{
    reveal(Seq::filter);
    let p = |m: Memory| m.content.text is Some;
    let f = |m: Memory| m.content.text.unwrap()@;
    if memories.len() > 0 {
        lemma_memory_texts(memories.drop_last());
        let front = memories.drop_last().filter(p);
        if memories.last().content.text is Some {
            assert(front.push(memories.last()).map_values(f) =~= front.map_values(f).push(
                memories.last().content.text.unwrap()@,
            ));
        }
    }
    assert(memory_texts(memories) =~= memories.filter(p).map_values(f));
}

/// A memory that has a text is among those that have one.
pub proof fn lemma_memory_text(memories: Seq<Memory>, i: int)
    requires
        0 <= i < memories.len(),
        memories[i].content.text is Some,
    ensures
        memory_texts(memories).contains(memories[i].content.text.unwrap()@),
    decreases memories.len(),
{
    let all = memory_texts(memories);
    if i == memories.len() - 1 {
        assert(all[all.len() - 1] == memories[i].content.text.unwrap()@);
    } else {
        let front = memories.drop_last();
        lemma_memory_text(front, i);
        let t = memories[i].content.text.unwrap()@;
        let k = choose|k: int| 0 <= k < memory_texts(front).len() && memory_texts(front)[k] == t;
        assert(all[k] == t);
    }
}

/// What is told of the knowledge that was found holds the texts of the memories that
/// were found and have one, in the order in which they were found, each behind its
/// number, counted from one.
pub proof fn knowledge_is_told(found: Seq<Memory>, r: ProviderResult)
    requires
        tells_knowledge(found, r),
    ensures
        found.len() == 0 <==> r.text is None,
        found.len() > 0 ==> ({
            let texts = found.filter(|m: Memory| m.content.text is Some).map_values(
                |m: Memory| m.content.text.unwrap()@,
            );
            passages::in_order(r.text.unwrap()@, texts) && passages::in_order(
                r.text.unwrap()@,
                Seq::new(
                    texts.len(),
                    |i: int| seq!['['] + number::decimal((i + 1) as nat) + seq![']', ' '] + texts[i],
                ),
            )
        }),
        forall|i: int|
            0 <= i < found.len() && (#[trigger] found[i]).content.text is Some ==> text::has(
                r.text.unwrap()@,
                found[i].content.text.unwrap()@,
            ),
{
    if found.len() > 0 {
        let texts = found.filter(|m: Memory| m.content.text is Some).map_values(
            |m: Memory| m.content.text.unwrap()@,
        );
        let marked = Seq::new(
            texts.len(),
            |i: int| seq!['['] + number::decimal((i + 1) as nat) + seq![']', ' '] + texts[i],
        );
        let body = lines::joined(marked, "\n\n"@);
        lemma_memory_texts(found);
        reveal_strlit("[");
        reveal_strlit("] ");
        assert(numbered(texts) =~= marked) by {
            assert("["@ =~= seq!['[']);
            assert("] "@ =~= seq![']', ' ']);
        }
        passages::lemma_joined(marked, "\n\n"@);
        passages::lemma_in_order("Relevant knowledge:\n"@, body, Seq::empty(), marked);
        assert("Relevant knowledge:\n"@ + body + Seq::<char>::empty() =~= r.text.unwrap()@);
        assert forall|i: int| 0 <= i < marked.len() implies text::has(
            #[trigger] marked[i],
            texts[i],
        ) by {
            let head = seq!['['] + number::decimal((i + 1) as nat) + seq![']', ' '];
            passages::lemma_stands(head, texts[i], Seq::empty());
            assert(head + texts[i] + Seq::<char>::empty() =~= marked[i]);
        }
        passages::lemma_within(r.text.unwrap()@, marked, texts);
        assert forall|i: int| 0 <= i < found.len() && (
        #[trigger] found[i]).content.text is Some implies text::has(
            r.text.unwrap()@,
            found[i].content.text.unwrap()@,
        ) by {
            lemma_memory_text(found, i);
            let t = found[i].content.text.unwrap()@;
            let k = choose|k: int| 0 <= k < texts.len() && texts[k] == t;
            passages::lemma_each(r.text.unwrap()@, texts, k);
        }
    }
}

// ---------------------------------------------------------------------------
// What becomes of a document, and what is found of it
// ---------------------------------------------------------------------------

/// Words of a text with spaces between them are read back.
proof fn lemma_run_of_words(s: Seq<char>, a: int, b: int)
    requires
        0 <= a <= b <= lines::words_of(s).len(),
    ensures
        lines::words_of(chunk_of(lines::words_of(s), (a, b))) == lines::words_of(s).subrange(a, b),
{
    let words = lines::words_of(s);
    let run = words.subrange(a, b);
    reveal_strlit(" ");
    assert(" "@ =~= seq![' ']);
    assert forall|i: int| 0 <= i < run.len() implies (#[trigger] run[i]).len() > 0 by {
        lemma_word_of(s, a + i);
        assert(run[i] == words[a + i]);
    }
    assert forall|i: int, j: int| 0 <= i < run.len() && 0 <= j < run[i].len() implies !text::white(
        #[trigger] run[i][j],
    ) by {
        lemma_word_of(s, a + i);
        assert(run[i] == words[a + i]);
        assert(!text::white(words[a + i][j]));
    }
    lines::lemma_words_joined(run);
}

/// A word is not empty and holds no white space.
proof fn lemma_word_of(s: Seq<char>, i: int)
    requires
        0 <= i < lines::words_of(s).len(),
    ensures
        lines::words_of(s)[i].len() > 0,
        forall|j: int|
            0 <= j < lines::words_of(s)[i].len() ==> !text::white(
                #[trigger] lines::words_of(s)[i][j],
            ),
{
    lines::lemma_word(s, i);
}

/// A text of no more words than a chunk may have is one chunk, as it stands. Of a longer
/// one the first chunk has the first words; each chunk but the last has as many words as
/// a chunk has, and the next goes on with the last of them, as many as chunks share;
/// and the last chunk ends with the last word of the text. So no word is lost.
pub proof fn chunks_hold_all_words(s: Seq<char>, options: ChunkOptions)
    requires
        can_cut(s, options),
    ensures
        lines::words_of(s).len() <= options.chunk_size ==> chunks_of(s, options) == seq![s],
        lines::words_of(s).len() > options.chunk_size ==> ({
            let words = lines::words_of(s);
            let chunks = chunks_of(s, options);
            let size = options.chunk_size as int;
            let shared = options.chunk_overlap as int;
            &&& chunks.len() > 1
            &&& lines::words_of(chunks[0]) == words.take(size)
            &&& words.skip(words.len() - lines::words_of(chunks.last()).len()) == lines::words_of(
                chunks.last(),
            )
            &&& lines::words_of(chunks.last()).len() > shared
            &&& forall|i: int|
                0 <= i < chunks.len() - 1 ==> lines::words_of(#[trigger] chunks[i]).len() == size
                    && lines::words_of(chunks[i]).skip(size - shared) == lines::words_of(
                    chunks[i + 1],
                ).take(shared)
        }),
{
    let words = lines::words_of(s);
    if words.len() > options.chunk_size {
        let size = options.chunk_size as nat;
        let shared = options.chunk_overlap as nat;
        let r = chunk_ranges(words.len(), size, shared, 0);
        let chunks = chunks_of(s, options);
        chunks_cover_the_text(words.len(), size, shared, 0);
        chunks_go_on(words.len(), size, shared, 0);
        assert forall|i: int| 0 <= i < r.len() implies lines::words_of(#[trigger] chunks[i])
            == words.subrange(r[i].0, r[i].1) by {
            lemma_run_of_words(s, r[i].0, r[i].1);
        }
        assert(r.len() > 1);
        assert(lines::words_of(chunks[0]) =~= words.take(size as int));
        let last = chunks.len() - 1;
        assert(lines::words_of(chunks[last]) == words.subrange(r[last].0, r[last].1));
        assert(words.skip(r[last].0) =~= words.subrange(r[last].0, r[last].1));
        assert forall|i: int| 0 <= i < chunks.len() - 1 implies lines::words_of(
            #[trigger] chunks[i],
        ).len() == size && lines::words_of(chunks[i]).skip(size - shared) == lines::words_of(
            chunks[i + 1],
        ).take(shared as int) by {
            assert(r[i].1 - r[i].0 == size && r[i + 1].0 == r[i].1 - shared);
            assert(r[i + 1].1 - r[i + 1].0 > shared);
            assert(lines::words_of(chunks[i]).skip(size - shared) =~= lines::words_of(
                chunks[i + 1],
            ).take(shared as int));
        }
    }
}

/// A chunk behind another has more words than the two share; the first of several has
/// the full size.
proof fn chunks_go_on(n: nat, size: nat, overlap: nat, start: nat)
    requires
        start < n,
        overlap < size,
    ensures
        ({
            let r = chunk_ranges(n, size, overlap, start);
            &&& start + size < n ==> r.len() > 1 && r[0].1 == start + size
            &&& forall|i: int| 0 < i < r.len() ==> (#[trigger] r[i]).1 - r[i].0 > overlap
        }),
    decreases n - start,
{
    if start + size < n {
        let next = (start + size - overlap) as nat;
        chunks_go_on(n, size, overlap, next);
        chunks_cover_the_text(n, size, overlap, next);
        let rest = chunk_ranges(n, size, overlap, next);
        let r = chunk_ranges(n, size, overlap, start);
        assert(r =~= seq![(start as int, (start + size) as int)] + rest);
        assert forall|i: int| 0 < i < r.len() implies (#[trigger] r[i]).1 - r[i].0 > overlap by {
            assert(r[i] == rest[i - 1]);
            if i == 1 {
                assert(rest[0].0 == next);
                if next + size < n {
                    assert(rest[0].1 == next + size);
                } else {
                    assert(rest[0] == (next as int, n as int));
                }
            }
        }
    }
}

/// A fragment of a document holds the chunk that it stands for, tells the document and
/// its own place in it, lies in the document's room, and is what both searches of the
/// agent go through. The memory of the document itself is not, and tells the title and
/// the length of the whole.
pub proof fn fragments_belong_to_their_document(
    document: Memory,
    document_id: MemoryId,
    at: Timestamp,
    agent_id: AgentId,
    room_id: RoomId,
    title: Seq<char>,
    body: Seq<char>,
    options: ChunkOptions,
    ing: Ingestion,
    m: Memory,
    id: MemoryId,
    index: int,
    embedding: Seq<u32>,
    query: Vec<u32>,
    top_k: nat,
    by_embedding: SearchMemoriesParams,
    by_keyword: GetMemoriesParams,
)
    requires
        is_document(document, document_id, at, agent_id, room_id, title, body),
        ing.is_of(document_id, agent_id, room_id, body, options),
        0 <= index < ing.chunks@.len(),
        is_fragment(m, id, at, ing, index, embedding),
        looks_for(by_embedding, query, agent_id, top_k),
        looks_through(by_keyword, agent_id),
    ensures
        index < chunks_of(body, options).len(),
        text::opt_text(m.content.text) == Some(chunks_of(body, options)[index]),
        m.embedding is Some && m.embedding.unwrap()@ == embedding,
        m.metadata is Some && m.metadata.unwrap() is Fragment,
        m.metadata.unwrap()->document_id == document.id,
        m.metadata.unwrap()->chunk_index == index,
        m.metadata.unwrap()->total_chunks == chunks_of(body, options).len(),
        m.room_id == document.room_id && m.agent_id == document.agent_id,
        by_embedding.memory_type == Some(m.memory_type) && by_embedding.agent_id == m.agent_id,
        by_keyword.memory_type == Some(m.memory_type) && by_keyword.agent_id == Some(m.agent_id),
        by_embedding.room_id is None && by_keyword.room_id is None && by_keyword.entity_id is None,
        by_embedding.embedding@ == query@ && by_embedding.match_count >= top_k,
        by_embedding.memory_type != Some(document.memory_type),
        text::opt_text(document.content.text) == Some(title),
        document.metadata.unwrap()->total_length == bytes::byte_len(body),
{
    assert(text::texts(ing.chunks@)[index] == ing.chunks@[index]@);
    assert(text::texts(ing.chunks@).len() == ing.chunks.len());
}

/// Each of the picks is given, itself or an earlier one of the same memory, and nothing
/// else is given.
proof fn lemma_first_picks(
    vector: Seq<MemoryId>,
    fragments: Seq<MemoryId>,
    picks: Seq<Pick>,
)
    ensures
        forall|i: int|
            0 <= i < picks.len() ==> given(
                vector,
                fragments,
                first_picks(vector, fragments, picks),
                id_of(vector, fragments, #[trigger] picks[i]),
            ),
        forall|j: int|
            0 <= j < first_picks(vector, fragments, picks).len() ==> picks.contains(
                #[trigger] first_picks(vector, fragments, picks)[j],
            ),
    decreases picks.len(),
{
    if picks.len() > 0 {
        let front = picks.drop_last();
        let before = first_picks(vector, fragments, front);
        let kept = first_picks(vector, fragments, picks);
        lemma_first_picks(vector, fragments, front);
        assert forall|i: int| 0 <= i < picks.len() implies given(
            vector,
            fragments,
            kept,
            id_of(vector, fragments, #[trigger] picks[i]),
        ) by {
            if i < front.len() {
                assert(picks[i] == front[i]);
                let j = choose|j: int|
                    0 <= j < before.len() && id_of(vector, fragments, #[trigger] before[j])
                        == id_of(vector, fragments, front[i]);
                assert(kept[j] == before[j]);
            } else if kept == before {
                let j = choose|j: int|
                    0 <= j < before.len() && id_of(vector, fragments, #[trigger] before[j])
                        == id_of(vector, fragments, picks.last());
                assert(kept[j] == before[j]);
            } else {
                assert(kept[kept.len() - 1] == picks.last());
            }
        }
        assert forall|j: int| 0 <= j < kept.len() implies picks.contains(#[trigger] kept[j]) by {
            if j < before.len() {
                assert(kept[j] == before[j]);
                let i = choose|i: int| 0 <= i < front.len() && front[i] == before[j];
                assert(picks[i] == kept[j]);
            } else {
                assert(picks[picks.len() - 1] == kept[j]);
            }
        }
    }
}

/// One of the picks is of this memory.
pub open spec fn given(
    vector: Seq<MemoryId>,
    fragments: Seq<MemoryId>,
    picks: Seq<Pick>,
    id: MemoryId,
) -> bool {
    exists|j: int|
        0 <= j < picks.len() && id_of(vector, fragments, #[trigger] picks[j]) == id
}

/// Of both searches no more memories are given than are wanted, and none twice. Each is
/// one that a search found. Where fewer are given than are wanted, every memory that the
/// one search found, and every fragment that the other found, is among them.
pub proof fn results_of_both_searches_are_given(
    vector: Seq<MemoryId>,
    fragments: Seq<MemoryId>,
    keyword: Seq<usize>,
    top_k: nat,
)
    requires
        vector.len() <= usize::MAX,
    ensures
        ({
            let r = merged(vector, fragments, keyword, top_k);
            &&& r.len() <= top_k
            &&& forall|i: int, j: int|
                0 <= i < j < r.len() ==> id_of(vector, fragments, #[trigger] r[i]) != id_of(
                    vector,
                    fragments,
                    #[trigger] r[j],
                )
            &&& forall|j: int|
                0 <= j < r.len() ==> match #[trigger] r[j] {
                    Pick::Vector(i) => i < vector.len(),
                    Pick::Fragment(i) => i < fragments.len() && keyword.contains(i),
                }
            &&& r.len() < top_k ==> forall|i: int|
                0 <= i < vector.len() ==> given(vector, fragments, r, #[trigger] vector[i])
            &&& r.len() < top_k ==> forall|i: int|
                0 <= i < keyword.len() && #[trigger] keyword[i] < fragments.len() ==> given(
                    vector,
                    fragments,
                    r,
                    fragments[keyword[i] as int],
                )
        }),
{
    let p = |i: usize| i < fragments.len();
    let f = |i: usize| Pick::Fragment(i);
    let front = Seq::new(vector.len(), |i: int| Pick::Vector(i as usize));
    let back = keyword.filter(p).map_values(f);
    let all = candidates(vector, fragments, keyword);
    let kept = first_picks(vector, fragments, all);
    let r = merged(vector, fragments, keyword, top_k);
    assert(all == front + back);
    picks_are_distinct(vector, fragments, all);
    lemma_first_picks(vector, fragments, all);
    assert forall|i: int, j: int| 0 <= i < j < r.len() implies id_of(
        vector,
        fragments,
        #[trigger] r[i],
    ) != id_of(vector, fragments, #[trigger] r[j]) by {
        assert(r[i] == kept[i] && r[j] == kept[j]);
    }
    assert forall|j: int| 0 <= j < r.len() implies match #[trigger] r[j] {
        Pick::Vector(i) => i < vector.len(),
        Pick::Fragment(i) => i < fragments.len() && keyword.contains(i),
    } by {
        assert(r[j] == kept[j]);
        assert(all.contains(kept[j]));
        let k = choose|k: int| 0 <= k < all.len() && all[k] == kept[j];
        if k < front.len() {
            assert(all[k] == front[k]);
        } else {
            let q = k - front.len();
            assert(all[k] == back[q]);
            keyword.lemma_filter_pred(p, q);
            assert(keyword.filter(p).contains(keyword.filter(p)[q]));
            keyword.lemma_filter_contains_rev(p, keyword.filter(p)[q]);
        }
    }
    if r.len() < top_k {
        assert(r == kept);
        assert forall|i: int| 0 <= i < vector.len() implies given(
            vector,
            fragments,
            r,
            #[trigger] vector[i],
        ) by {
            assert(all[i] == Pick::Vector(i as usize));
            assert(id_of(vector, fragments, all[i]) == vector[i]);
        }
        assert forall|i: int| 0 <= i < keyword.len() && #[trigger] keyword[i]
            < fragments.len() implies given(vector, fragments, r, fragments[keyword[i] as int]) by {
            keyword.lemma_filter_contains(p, i);
            let q = choose|q: int|
                0 <= q < keyword.filter(p).len() && keyword.filter(p)[q] == keyword[i];
            assert(back[q] == Pick::Fragment(keyword[i]));
            assert(all[front.len() + q] == Pick::Fragment(keyword[i]));
        }
    }
}

/// What is found by embedding stands first: where enough of it is found, nothing else is
/// given, and it is given in the order in which it was found.
pub proof fn embeddings_come_first(
    vector: Seq<MemoryId>,
    fragments: Seq<MemoryId>,
    keyword: Seq<usize>,
    top_k: nat,
)
    requires
        vector.len() <= usize::MAX,
        vector.no_duplicates(),
    ensures
        ({
            let r = merged(vector, fragments, keyword, top_k);
            &&& r.len() >= if vector.len() < top_k {
                vector.len()
            } else {
                top_k
            }
            &&& forall|i: int|
                0 <= i < vector.len() && i < top_k ==> #[trigger] r[i] == Pick::Vector(i as usize)
        }),
{
    let front = Seq::new(vector.len(), |i: int| Pick::Vector(i as usize));
    let all = candidates(vector, fragments, keyword);
    let back = all.skip(front.len() as int);
    assert(all =~= front + back);
    lemma_front_is_kept(vector, fragments, front);
    lemma_picks_grow(vector, fragments, front, back);
    let kept = first_picks(vector, fragments, all);
    let r = merged(vector, fragments, keyword, top_k);
    assert(kept.take(front.len() as int) == front);
    assert forall|i: int| 0 <= i < vector.len() && i < top_k implies #[trigger] r[i]
        == Pick::Vector(i as usize) by {
        assert(r[i] == kept[i]);
        assert(kept.take(front.len() as int)[i] == front[i]);
    }
}

/// Picks of different memories are all kept.
proof fn lemma_front_is_kept(vector: Seq<MemoryId>, fragments: Seq<MemoryId>, picks: Seq<Pick>)
    requires
        vector.no_duplicates(),
        vector.len() <= usize::MAX,
        picks.len() <= vector.len(),
        forall|i: int| 0 <= i < picks.len() ==> #[trigger] picks[i] == Pick::Vector(i as usize),
    ensures
        first_picks(vector, fragments, picks) == picks,
    decreases picks.len(),
{
    if picks.len() > 0 {
        let front = picks.drop_last();
        assert forall|i: int| 0 <= i < front.len() implies #[trigger] front[i] == Pick::Vector(
            i as usize,
        ) by {
            assert(front[i] == picks[i]);
        }
        lemma_front_is_kept(vector, fragments, front);
        assert(front.push(picks.last()) =~= picks);
        assert(picks[picks.len() - 1] == Pick::Vector((picks.len() - 1) as usize));
    } else {
        assert(first_picks(vector, fragments, picks) =~= picks);
    }
}

/// Further picks come behind those that were kept.
proof fn lemma_picks_grow(
    vector: Seq<MemoryId>,
    fragments: Seq<MemoryId>,
    front: Seq<Pick>,
    back: Seq<Pick>,
)
    ensures
        ({
            let kept = first_picks(vector, fragments, front);
            let more = first_picks(vector, fragments, front + back);
            more.len() >= kept.len() && more.take(kept.len() as int) == kept
        }),
    decreases back.len(),
{
    let kept = first_picks(vector, fragments, front);
    let more = first_picks(vector, fragments, front + back);
    if back.len() == 0 {
        assert(front + back =~= front);
        assert(more.take(kept.len() as int) =~= kept);
    } else {
        lemma_picks_grow(vector, fragments, front, back.drop_last());
        assert((front + back).drop_last() =~= front + back.drop_last());
        let before = first_picks(vector, fragments, front + back.drop_last());
        assert(more.take(kept.len() as int) =~= before.take(kept.len() as int));
    }
}

/// The keyword index has one document for each fragment, in their order: what is indexed
/// of two runs of fragments is what is indexed of the first and then of the second.
pub proof fn fragments_are_indexed(first: Seq<Memory>, second: Seq<Memory>, m: Memory)
    ensures
        memory_tokens(first + second) == memory_tokens(first) + memory_tokens(second),
        m.content.text is Some ==> memory_tokens(seq![m]) == seq![
            search::tokens_of(search::normal_form(m.content.text.unwrap()@)),
        ],
{
    assert(memory_tokens(first + second) =~= memory_tokens(first) + memory_tokens(second));
    if m.content.text is Some {
        assert(memory_tokens(seq![m]) =~= seq![
            search::tokens_of(search::normal_form(m.content.text.unwrap()@)),
        ]);
    }
}

} // verus!
