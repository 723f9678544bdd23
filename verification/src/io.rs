use vstd::prelude::*;
use crate::block::copy_bytes;
use crate::error::IoFailure;
use crate::hash::H256;
use crate::manifest::{ManifestData, ManifestSpec};

verus! {

/// The place of the last entry of `log` under `hash`, or -1 where there is none.
pub open spec fn last_place(log: Seq<(H256, Seq<u8>)>, hash: H256) -> int
    decreases log.len(),
{
    if log.len() == 0 {
        -1
    } else if log.last().0 == hash {
        log.len() - 1
    } else {
        last_place(log.drop_last(), hash)
    }
}

/// The bytes that were written last under `hash`, if any were.
pub open spec fn lookup(log: Seq<(H256, Seq<u8>)>, hash: H256) -> Option<Seq<u8>> {
    if last_place(log, hash) >= 0 {
        Some(log[last_place(log, hash)].1)
    } else {
        None
    }
}

/// Where the last entry under a hash stands, and that no later one has it.
pub proof fn lemma_last_place(log: Seq<(H256, Seq<u8>)>, hash: H256)
    ensures
        -1 <= last_place(log, hash) < log.len(),
        last_place(log, hash) >= 0 ==> log[last_place(log, hash)].0 == hash,
        forall|i: int| last_place(log, hash) < i < log.len() ==> (#[trigger] log[i]).0 != hash,
    decreases log.len(),
{
    if log.len() > 0 && log.last().0 != hash {
        lemma_last_place(log.drop_last(), hash);
        assert forall|i: int| last_place(log, hash) < i < log.len() implies (#[trigger] log[i]).0
            != hash by {
            if i < log.len() - 1 {
                assert(log.drop_last()[i] == log[i]);
            }
        }
    }
}

/// What was written under a hash can be read back: after an entry is added,
/// its hash leads to its bytes, and every other hash to what it led to before.
pub proof fn lemma_lookup_push(log: Seq<(H256, Seq<u8>)>, hash: H256, bytes: Seq<u8>, other: H256)
    ensures
        lookup(log.push((hash, bytes)), hash) == Some(bytes),
        other != hash ==> lookup(log.push((hash, bytes)), other) == lookup(log, other),
{
    let grown = log.push((hash, bytes));
    assert(grown.last() == (hash, bytes));
    assert(grown.drop_last() =~= log);
    if other != hash {
        lemma_last_place(log, other);
        if last_place(log, other) >= 0 {
            assert(grown[last_place(log, other)] == log[last_place(log, other)]);
        }
    }
}

/// The sink of a snapshot: it takes the chunks, each with its hash, and at
/// the end the manifest.
pub trait SnapshotWriter {
    /// Takes a compressed state chunk, or fails.
    fn write_state_chunk(&mut self, hash: H256, chunk: &[u8]) -> Result<(), IoFailure>;

    /// Takes a compressed block chunk, or fails.
    fn write_block_chunk(&mut self, hash: H256, chunk: &[u8]) -> Result<(), IoFailure>;

    /// Takes the manifest, or fails.
    fn finish(&mut self, manifest: ManifestData) -> Result<(), IoFailure>;
}

/// A sink together with the record of what it has taken: every chunk and
/// the manifest that was handed to it and that it did not refuse.
pub struct Recorded<W> {
    inner: W,
    state: Ghost<Seq<(H256, Seq<u8>)>>,
    blocks: Ghost<Seq<(H256, Seq<u8>)>>,
    manifest: Ghost<Option<ManifestSpec>>,
    refused: Ghost<nat>,
}

impl<W: SnapshotWriter> Recorded<W> {
    /// The state chunks taken so far, in order.
    pub closed spec fn state_chunks(&self) -> Seq<(H256, Seq<u8>)> {
        self.state@
    }

    /// The block chunks taken so far, in order.
    pub closed spec fn block_chunks(&self) -> Seq<(H256, Seq<u8>)> {
        self.blocks@
    }

    /// The manifest, once it was taken.
    pub closed spec fn finished(&self) -> Option<ManifestSpec> {
        self.manifest@
    }

    /// How often the sink has refused what was handed to it.
    pub closed spec fn refusals(&self) -> nat {
        self.refused@
    }

    /// The sink itself.
    pub closed spec fn sink(&self) -> W {
        self.inner
    }

    /// Starts the record of a sink: nothing taken yet.
    pub fn new(inner: W) -> (r: Recorded<W>)
        ensures
            r.state_chunks() == Seq::<(H256, Seq<u8>)>::empty(),
            r.block_chunks() == Seq::<(H256, Seq<u8>)>::empty(),
            r.finished().is_none(),
            r.refusals() == 0,
            r.sink() == inner,
    {
        Recorded {
            inner: inner,
            state: Ghost(Seq::empty()),
            blocks: Ghost(Seq::empty()),
            manifest: Ghost(None),
            refused: Ghost(0),
        }
    }

    /// Ends the record and hands the sink back.
    pub fn into_inner(self) -> (r: W)
        ensures
            r == self.sink(),
    {
        self.inner
    }

    /// The sink, for reading.
    pub fn get_ref(&self) -> (r: &W)
        ensures
            *r == self.sink(),
    {
        &self.inner
    }

    /// Hands a compressed state chunk to the sink, and records it unless the
    /// sink refuses it.
    pub fn write_state_chunk(&mut self, hash: H256, chunk: &[u8]) -> (r: Result<(), IoFailure>)
        ensures
            final(self).block_chunks() == old(self).block_chunks(),
            final(self).finished() == old(self).finished(),
            r.is_ok() ==> final(self).state_chunks() == old(self).state_chunks().push(
                (hash, chunk@),
            ),
            r.is_err() ==> final(self).state_chunks() == old(self).state_chunks(),
            final(self).refusals() == old(self).refusals() + (if r.is_err() {
                1nat
            } else {
                0nat
            }),
    {
        let r = self.inner.write_state_chunk(hash, chunk);
        if r.is_ok() {
            self.state = Ghost(self.state@.push((hash, chunk@)));
        } else {
            self.refused = Ghost(self.refused@ + 1);
        }
        r
    }

    /// Hands a compressed block chunk to the sink, and records it unless the
    /// sink refuses it.
    pub fn write_block_chunk(&mut self, hash: H256, chunk: &[u8]) -> (r: Result<(), IoFailure>)
        ensures
            final(self).state_chunks() == old(self).state_chunks(),
            final(self).finished() == old(self).finished(),
            r.is_ok() ==> final(self).block_chunks() == old(self).block_chunks().push(
                (hash, chunk@),
            ),
            r.is_err() ==> final(self).block_chunks() == old(self).block_chunks(),
            final(self).refusals() == old(self).refusals() + (if r.is_err() {
                1nat
            } else {
                0nat
            }),
    {
        let r = self.inner.write_block_chunk(hash, chunk);
        if r.is_ok() {
            self.blocks = Ghost(self.blocks@.push((hash, chunk@)));
        } else {
            self.refused = Ghost(self.refused@ + 1);
        }
        r
    }

    /// Hands the manifest to the sink, and records it unless the sink refuses it.
    pub fn finish(&mut self, manifest: ManifestData) -> (r: Result<(), IoFailure>)
        ensures
            final(self).state_chunks() == old(self).state_chunks(),
            final(self).block_chunks() == old(self).block_chunks(),
            r.is_ok() ==> final(self).finished() == Some(manifest@),
            r.is_err() ==> final(self).finished() == old(self).finished(),
            final(self).refusals() == old(self).refusals() + (if r.is_err() {
                1nat
            } else {
                0nat
            }),
    {
        let ghost spec_manifest = manifest@;
        let r = self.inner.finish(manifest);
        if r.is_ok() {
            self.manifest = Ghost(Some(spec_manifest));
        } else {
            self.refused = Ghost(self.refused@ + 1);
        }
        r
    }
}

/// Where the manifest and the compressed chunks of a snapshot are read from.
pub trait SnapshotReader {
    /// The manifest of the snapshot.
    fn manifest(&self) -> &ManifestData;

    /// The compressed chunk that is kept under `hash`.
    fn chunk(&self, hash: H256) -> Result<Vec<u8>, IoFailure>;
}

/// A source together with the record of what was asked of it: the manifests
/// that it handed out, the hashes of the chunks that it was asked for, what
/// it gave for each, and how often it had none to give.
pub struct Fetched<R> {
    inner: R,
    told: Ghost<Seq<ManifestSpec>>,
    wanted: Ghost<Seq<H256>>,
    given: Ghost<Seq<Option<Seq<u8>>>>,
    failed: Ghost<nat>,
}

impl<R: SnapshotReader> Fetched<R> {
    /// The manifests handed out so far, in order.
    pub closed spec fn manifests(&self) -> Seq<ManifestSpec> {
        self.told@
    }

    /// The hashes of the chunks asked for so far, in order.
    pub closed spec fn asked(&self) -> Seq<H256> {
        self.wanted@
    }

    /// What the source gave for each hash that it was asked for, in order:
    /// the bytes of the chunk, or nothing where it failed.
    pub closed spec fn answers(&self) -> Seq<Option<Seq<u8>>> {
        self.given@
    }

    /// How often the source has failed to give a chunk.
    pub closed spec fn failures(&self) -> nat {
        self.failed@
    }

    /// The source itself.
    pub closed spec fn source(&self) -> R {
        self.inner
    }

    /// Starts the record of a source: nothing asked yet.
    pub fn new(inner: R) -> (r: Fetched<R>)
        ensures
            r.manifests() == Seq::<ManifestSpec>::empty(),
            r.asked() == Seq::<H256>::empty(),
            r.answers() == Seq::<Option<Seq<u8>>>::empty(),
            r.failures() == 0,
            r.source() == inner,
    {
        Fetched {
            inner: inner,
            told: Ghost(Seq::empty()),
            wanted: Ghost(Seq::empty()),
            given: Ghost(Seq::empty()),
            failed: Ghost(0),
        }
    }

    /// Ends the record and hands the source back.
    pub fn into_inner(self) -> (r: R)
        ensures
            r == self.source(),
    {
        self.inner
    }

    /// Asks the source for its manifest, and records a copy of it.
    pub fn manifest(&mut self) -> (r: ManifestData)
        ensures
            final(self).manifests() == old(self).manifests().push(r@),
            final(self).asked() == old(self).asked(),
            final(self).answers() == old(self).answers(),
            final(self).failures() == old(self).failures(),
    {
        let r = self.inner.manifest().duplicate();
        self.told = Ghost(self.told@.push(r@));
        r
    }

    /// Asks the source for the chunk under `hash`, and records the question.
    pub fn chunk(&mut self, hash: H256) -> (r: Result<Vec<u8>, IoFailure>)
        ensures
            final(self).manifests() == old(self).manifests(),
            final(self).asked() == old(self).asked().push(hash),
            final(self).answers() == old(self).answers().push(
                match r {
                    Ok(v) => Some(v@),
                    Err(_) => None,
                },
            ),
            final(self).failures() == old(self).failures() + (if r.is_err() {
                1nat
            } else {
                0nat
            }),
    {
        let r = self.inner.chunk(hash);
        self.wanted = Ghost(self.wanted@.push(hash));
        let ghost answer = if r.is_ok() {
            Some(r->Ok_0@)
        } else {
            None
        };
        self.given = Ghost(self.given@.push(answer));
        if r.is_err() {
            self.failed = Ghost(self.failed@ + 1);
        }
        r
    }
}

/// The byte strings of a log of chunks.
pub open spec fn log_views(log: Seq<(H256, Vec<u8>)>) -> Seq<(H256, Seq<u8>)> {
    log.map_values(|e: (H256, Vec<u8>)| (e.0, e.1@))
}

/// A snapshot kept in memory: sink and source at once.
#[derive(Debug)]
pub struct MemoryArchive {
    state: Vec<(H256, Vec<u8>)>,
    blocks: Vec<(H256, Vec<u8>)>,
    manifest: Option<ManifestData>,
}

impl SnapshotWriter for MemoryArchive {
    fn write_state_chunk(&mut self, hash: H256, chunk: &[u8]) -> (r: Result<(), IoFailure>)
        ensures
            r.is_ok(),
            final(self).state_chunks() == old(self).state_chunks().push((hash, chunk@)),
            final(self).block_chunks() == old(self).block_chunks(),
            final(self).finished() == old(self).finished(),
            lookup(final(self).state_chunks(), hash) == Some(chunk@),
    {
        proof {
            lemma_lookup_push(old(self).state_chunks(), hash, chunk@, hash);
        }
        let bytes = vstd::slice::slice_to_vec(chunk);
        self.state.push((hash, bytes));
        assert(log_views(self.state@) =~= log_views(old(self).state@).push((hash, chunk@)));
        Ok(())
    }

    fn write_block_chunk(&mut self, hash: H256, chunk: &[u8]) -> (r: Result<(), IoFailure>)
        ensures
            r.is_ok(),
            final(self).block_chunks() == old(self).block_chunks().push((hash, chunk@)),
            final(self).state_chunks() == old(self).state_chunks(),
            final(self).finished() == old(self).finished(),
            lookup(final(self).block_chunks(), hash) == Some(chunk@),
    {
        proof {
            lemma_lookup_push(old(self).block_chunks(), hash, chunk@, hash);
        }
        let bytes = vstd::slice::slice_to_vec(chunk);
        self.blocks.push((hash, bytes));
        assert(log_views(self.blocks@) =~= log_views(old(self).blocks@).push((hash, chunk@)));
        Ok(())
    }

    fn finish(&mut self, manifest: ManifestData) -> (r: Result<(), IoFailure>)
        ensures
            r.is_ok(),
            final(self).finished() == Some(manifest@),
            final(self).state_chunks() == old(self).state_chunks(),
            final(self).block_chunks() == old(self).block_chunks(),
    {
        self.manifest = Some(manifest);
        Ok(())
    }
}

impl MemoryArchive {
    /// The state chunks taken so far, in order.
    pub closed spec fn state_chunks(&self) -> Seq<(H256, Seq<u8>)> {
        log_views(self.state@)
    }

    /// The block chunks taken so far, in order.
    pub closed spec fn block_chunks(&self) -> Seq<(H256, Seq<u8>)> {
        log_views(self.blocks@)
    }

    /// The manifest, once it was taken.
    pub closed spec fn finished(&self) -> Option<ManifestSpec> {
        match self.manifest {
            Some(m) => Some(m@),
            None => None,
        }
    }

    /// An archive without chunks and without manifest.
    pub fn new() -> (r: MemoryArchive)
        ensures
            r.state_chunks() == Seq::<(H256, Seq<u8>)>::empty(),
            r.block_chunks() == Seq::<(H256, Seq<u8>)>::empty(),
            r.finished().is_none(),
    {
        let r = MemoryArchive { state: Vec::new(), blocks: Vec::new(), manifest: None };
        assert(log_views(r.state@) =~= Seq::<(H256, Seq<u8>)>::empty());
        assert(log_views(r.blocks@) =~= Seq::<(H256, Seq<u8>)>::empty());
        r
    }

    /// The finished snapshot as a source of chunks; nothing while the
    /// manifest is wanting.
    pub fn into_snapshot(self) -> (r: Option<MemorySnapshot>)
        ensures
            r.is_some() == self.finished().is_some(),
            r.is_some() ==> {
                &&& Some(r.unwrap().contents()) == self.finished()
                &&& r.unwrap().state_chunks() == self.state_chunks()
                &&& r.unwrap().block_chunks() == self.block_chunks()
            },
    {
        match self.manifest {
            Some(m) => Some(
                MemorySnapshot {
                    contents: m,
                    chunks: MemoryArchive { state: self.state, blocks: self.blocks, manifest: None },
                },
            ),
            None => None,
        }
    }

    /// The manifest, once the snapshot is finished.
    pub fn manifest(&self) -> (r: Option<&ManifestData>)
        ensures
            match r {
                Some(m) => self.finished() == Some(m@),
                None => self.finished().is_none(),
            },
    {
        self.manifest.as_ref()
    }

    /// Looks in a log for the bytes written last under `hash`.
    fn find(log: &Vec<(H256, Vec<u8>)>, hash: &H256) -> (r: Option<usize>)
        ensures
            match r {
                Some(i) => i < log@.len() && i == last_place(log_views(log@), *hash)
                    && log_views(log@)[i as int] == (log@[i as int].0, log@[i as int].1@),
                None => last_place(log_views(log@), *hash) == -1,
            },
    {
        let ghost views = log_views(log@);
        let mut i: usize = log.len();
        proof {
            lemma_last_place(views, *hash);
        }
        while i > 0
            invariant
                i <= log@.len(),
                views == log_views(log@),
                last_place(views, *hash) < i,
            decreases i,
        {
            i = i - 1;
            if log[i].0 == *hash {
                proof {
                    lemma_last_place(views, *hash);
                    assert(views[i as int].0 == *hash);
                }
                return Some(i);
            }
            proof {
                lemma_last_place(views, *hash);
                assert(views[i as int].0 != *hash);
            }
        }
        proof {
            lemma_last_place(views, *hash);
        }
        None
    }

    /// The state chunk written last under `hash`, if there is one.
    pub fn state_chunk(&self, hash: &H256) -> (r: Option<Vec<u8>>)
        ensures
            match r {
                Some(v) => lookup(self.state_chunks(), *hash) == Some(v@),
                None => lookup(self.state_chunks(), *hash).is_none(),
            },
    {
        match Self::find(&self.state, hash) {
            Some(i) => Some(copy_bytes(&self.state[i].1)),
            None => None,
        }
    }

    /// The block chunk written last under `hash`, if there is one.
    pub fn block_chunk(&self, hash: &H256) -> (r: Option<Vec<u8>>)
        ensures
            match r {
                Some(v) => lookup(self.block_chunks(), *hash) == Some(v@),
                None => lookup(self.block_chunks(), *hash).is_none(),
            },
    {
        match Self::find(&self.blocks, hash) {
            Some(i) => Some(copy_bytes(&self.blocks[i].1)),
            None => None,
        }
    }

    /// The chunk written last under `hash`: a block chunk where there is one,
    /// else a state chunk.
    pub fn chunk(&self, hash: &H256) -> (r: Option<Vec<u8>>)
        ensures
            match r {
                Some(v) => Some(v@) == (match lookup(self.block_chunks(), *hash) {
                    Some(b) => Some(b),
                    None => lookup(self.state_chunks(), *hash),
                }),
                None => lookup(self.block_chunks(), *hash).is_none() && lookup(
                    self.state_chunks(),
                    *hash,
                ).is_none(),
            },
    {
        match self.block_chunk(hash) {
            Some(v) => Some(v),
            None => self.state_chunk(hash),
        }
    }
}

/// A finished snapshot kept in memory.
#[derive(Debug)]
pub struct MemorySnapshot {
    contents: ManifestData,
    chunks: MemoryArchive,
}

impl MemorySnapshot {
    /// The manifest.
    pub closed spec fn contents(&self) -> ManifestSpec {
        self.contents@
    }

    /// The state chunks, in the order in which they were written.
    pub closed spec fn state_chunks(&self) -> Seq<(H256, Seq<u8>)> {
        self.chunks.state_chunks()
    }

    /// The block chunks, in the order in which they were written.
    pub closed spec fn block_chunks(&self) -> Seq<(H256, Seq<u8>)> {
        self.chunks.block_chunks()
    }
}

impl SnapshotReader for MemorySnapshot {
    fn manifest(&self) -> (r: &ManifestData)
        ensures
            r@ == self.contents(),
    {
        &self.contents
    }

    /// The chunk written last under `hash`: a block chunk where there is
    /// one, else a state chunk. Fails if and only if there is neither.
    fn chunk(&self, hash: H256) -> (r: Result<Vec<u8>, IoFailure>)
        ensures
            match r {
                Ok(v) => Some(v@) == (match lookup(self.block_chunks(), hash) {
                    Some(b) => Some(b),
                    None => lookup(self.state_chunks(), hash),
                }),
                Err(_) => lookup(self.block_chunks(), hash).is_none() && lookup(
                    self.state_chunks(),
                    hash,
                ).is_none(),
            },
    {
        match self.chunks.chunk(&hash) {
            Some(v) => Ok(v),
            None => Err(IoFailure { reason: "no chunk is kept under this hash".to_owned() }),
        }
    }
}

} // verus!
