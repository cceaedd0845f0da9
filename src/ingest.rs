//! The ingestion run as a state machine: it decides each request in turn and
//! the caller performs it and hands back the reply.
use vstd::prelude::*;
use crate::chunker::{chunks_of_text, lemma_chunking_deterministic, split_corpus};
use crate::embedding::{
    accept_embedding, authorization, batch_body, bearer, credential_usable, embed_request,
    embedding_verdict, EmbedConfig, EmbedReply, EmbedRequest,
};
use crate::error::{Operation, PipelineError};
use crate::index::{check_reply, service_outcome, CollectionSpec, Point, ServiceReply};

verus! {

/// Where an ingestion run stands.
#[derive(Clone, Copy, Debug, PartialEq, Eq)]
pub enum Phase {
    /// Waiting for the embedding of the next chunk.
    Embedding,
    /// Waiting for the answer to ensure-collection.
    EnsuringCollection,
    /// Waiting for the answer to the batch upsert.
    Upserting,
    Finished,
    Failed,
}

/// What the caller is to do next.
pub enum Step {
    /// Send `request` to the embedding provider; its vector becomes point `id`.
    Embed { id: u64, request: EmbedRequest },
    /// Create the run's collection, or accept it as it stands.
    EnsureCollection,
    /// Upsert all `points` into the collection in one request.
    Upsert { points: Vec<Point> },
    /// The run is done.
    Finished,
    /// The run stopped with this error.
    Failed(PipelineError),
}

/// One ingestion run over a corpus.
pub struct Ingestion {
    config: EmbedConfig,
    collection: CollectionSpec,
    chunks: Vec<String>,
    points: Vec<Point>,
    phase: Phase,
}

/// `points` are the batch for `texts` and `vectors`: point `j` has id `j`,
/// the `j`-th text and the `j`-th vector.
pub open spec fn batch_matches(points: Seq<Point>, texts: Seq<Seq<char>>, vectors: Seq<Seq<u32>>) -> bool {
    &&& points.len() == texts.len()
    &&& vectors.len() == texts.len()
    &&& forall|j: int|
        0 <= j < points.len() ==> (#[trigger] points[j]).id == j && points[j].text@ == texts[j]
            && points[j].vector@ == vectors[j]
}

/// `step` is what follows in state `s` once the embeddings so far are in: the
/// request for the next chunk, or ensure-collection once all are embedded.
pub open spec fn follows(s: Ingestion, step: Step) -> bool {
    let k = s.vectors().len();
    if k < s.chunk_texts().len() {
        match step {
            Step::Embed { id, request } => {
                &&& s.phase_of() == Phase::Embedding
                &&& id == k
                &&& s.credential() matches Some(c)
                &&& request.authorization@ == bearer(c)
                &&& request.body@ == batch_body(s.chunk_texts()[k as int])
            },
            _ => false,
        }
    } else {
        step is EnsureCollection && s.phase_of() == Phase::EnsuringCollection
    }
}

impl Ingestion {
    /// The texts of the corpus's chunks, in order.
    pub closed spec fn chunk_texts(&self) -> Seq<Seq<char>> {
        self.chunks@.map_values(|s: String| s@)
    }

    /// The embeddings received so far, one per chunk from the first.
    pub closed spec fn vectors(&self) -> Seq<Seq<u32>> {
        self.points@.map_values(|p: Point| p.vector@)
    }

    pub closed spec fn phase_of(&self) -> Phase {
        self.phase
    }

    /// The collection's vector size.
    pub closed spec fn dimension(&self) -> usize {
        self.collection.vector_size
    }

    pub closed spec fn collection_name(&self) -> Seq<char> {
        self.collection.name@
    }

    pub closed spec fn credential(&self) -> Option<Seq<char>> {
        match self.config.credential {
            Some(k) => Some(k@),
            None => None,
        }
    }

    /// The run's invariant: points are numbered from zero in chunk order and
    /// have the collection's dimension.
    pub closed spec fn wf(&self) -> bool {
        &&& self.chunks@.len() <= u64::MAX
        &&& self.points@.len() <= self.chunks@.len()
        &&& forall|j: int|
            0 <= j < self.points@.len() ==> (#[trigger] self.points@[j]).id == j
                && self.points@[j].text@ == self.chunks@[j]@ && self.points@[j].vector@.len()
                == self.collection.vector_size
        &&& self.phase != Phase::Failed ==> credential_usable(self.config.credential)
        &&& self.phase == Phase::Embedding ==> self.points@.len() < self.chunks@.len()
        &&& self.phase == Phase::EnsuringCollection ==> self.points@.len() == self.chunks@.len()
    }

    /// Every embedding held by a well-formed run has the collection's
    /// dimension, and there is at most one per chunk.
    pub proof fn lemma_dimensions(&self)
        requires
            self.wf(),
        ensures
            self.vectors().len() <= self.chunk_texts().len(),
            forall|j: int|
                0 <= j < self.vectors().len() ==> (#[trigger] self.vectors()[j]).len()
                    == self.dimension(),
    {
        assert forall|j: int| 0 <= j < self.vectors().len() implies (
        #[trigger] self.vectors()[j]).len() == self.dimension() by {
            assert(self.points@[j].vector@.len() == self.collection.vector_size);
        }
    }

    /// The phase of the run.
    pub fn phase(&self) -> (r: Phase)
        ensures
            r == self.phase_of(),
    {
        self.phase
    }

    /// The run's collection.
    pub fn collection(&self) -> (r: &CollectionSpec)
        ensures
            r.name@ == self.collection_name(),
            r.vector_size == self.dimension(),
    {
        &self.collection
    }

    /// The number of chunks of the corpus.
    pub fn chunk_count(&self) -> (r: usize)
        ensures
            r == self.chunk_texts().len(),
    {
        self.chunks.len()
    }

    /// The request for the next chunk, or ensure-collection once every chunk
    /// is embedded.
    fn request_next(&mut self) -> (step: Step)
        requires
            old(self).chunks@.len() <= u64::MAX,
            old(self).points@.len() <= old(self).chunks@.len(),
            credential_usable(old(self).config.credential),
        ensures
            final(self).chunks == old(self).chunks,
            final(self).points == old(self).points,
            final(self).config == old(self).config,
            final(self).collection == old(self).collection,
            follows(*final(self), step),
    {
        let k = self.points.len();
        if k < self.chunks.len() {
            let request = embed_request(&self.config, self.chunks[k].as_str()).unwrap();
            self.phase = Phase::Embedding;
            Step::Embed { id: k as u64, request }
        } else {
            self.phase = Phase::EnsuringCollection;
            Step::EnsureCollection
        }
    }

    /// Starts a run over `corpus` into `collection`. Without a usable
    /// credential the run fails at once, before any request; otherwise the
    /// first step is the embedding of chunk 0, or ensure-collection for an
    /// empty corpus.
    pub fn start(config: EmbedConfig, corpus: &str, collection: CollectionSpec) -> (r: (
        Ingestion,
        Step,
    ))
        ensures
            r.0.wf(),
            chunks_of_text(corpus@, r.0.chunk_texts()),
            r.0.vectors().len() == 0,
            r.0.dimension() == collection.vector_size,
            r.0.collection_name() == collection.name@,
            config.credential matches Some(k) ==> r.0.credential() == Some(k@),
            config.credential is None ==> r.0.phase_of() == Phase::Failed && r.1 == Step::Failed(
                PipelineError::MissingCredential,
            ),
            (config.credential is Some && !credential_usable(config.credential)) ==> r.0.phase_of()
                == Phase::Failed && r.1 == Step::Failed(PipelineError::InvalidCredential),
            credential_usable(config.credential) ==> follows(r.0, r.1),
    {
        let chunks = split_corpus(corpus);
        let checked = authorization(&config);
        let count = chunks.len();
        let mut run = Ingestion {
            config,
            collection,
            chunks,
            points: Vec::new(),
            phase: Phase::Failed,
        };
        proof {
            assert(run.chunks@.map_values(|s: String| s@) == run.chunk_texts());
            assert(run.vectors() =~= Seq::<Seq<u32>>::empty());
            assert(usize::MAX <= u64::MAX);
            assert(run.chunks@.len() == count);
        }
        if let Err(e) = checked {
            return (run, Step::Failed(e));
        }
        let step = run.request_next();
        (run, step)
    }

    /// Takes the reply to the embedding of the next chunk. An accepted
    /// vector becomes the next point; any failure ends the run.
    pub fn on_embedding(&mut self, reply: EmbedReply) -> (step: Step)
        requires
            old(self).wf(),
            old(self).phase_of() == Phase::Embedding,
        ensures
            final(self).wf(),
            final(self).chunk_texts() == old(self).chunk_texts(),
            final(self).dimension() == old(self).dimension(),
            final(self).collection_name() == old(self).collection_name(),
            final(self).credential() == old(self).credential(),
            match embedding_verdict(reply, old(self).dimension()) {
                Ok(v) => final(self).vectors() == old(self).vectors().push(v) && follows(
                    *final(self),
                    step,
                ),
                Err(e) => final(self).vectors() == old(self).vectors() && final(self).phase_of()
                    == Phase::Failed && step == Step::Failed(e),
            },
    {
        let k = self.points.len();
        match accept_embedding(reply, self.collection.vector_size) {
            Err(e) => {
                self.phase = Phase::Failed;
                Step::Failed(e)
            },
            Ok(vector) => {
                let text = self.chunks[k].clone();
                self.points.push(Point { id: k as u64, vector, text });
                proof {
                    assert(self.vectors() =~= old(self).vectors().push(vector@));
                }
                self.request_next()
            },
        }
    }

    /// Takes the reply to ensure-collection; on success the next step is the
    /// upsert of every point.
    pub fn on_collection(&mut self, reply: ServiceReply) -> (step: Step)
        requires
            old(self).wf(),
            old(self).phase_of() == Phase::EnsuringCollection,
        ensures
            final(self).wf(),
            final(self).chunk_texts() == old(self).chunk_texts(),
            final(self).dimension() == old(self).dimension(),
            final(self).collection_name() == old(self).collection_name(),
            final(self).credential() == old(self).credential(),
            match service_outcome(Operation::EnsureCollection, reply) {
                Ok(_) => final(self).phase_of() == Phase::Upserting && (step matches Step::Upsert {
                    points,
                } && batch_matches(points@, old(self).chunk_texts(), old(self).vectors())
                    && forall|j: int|
                    0 <= j < points@.len() ==> (#[trigger] points@[j]).vector@.len()
                        == old(self).dimension()),
                Err(e) => final(self).phase_of() == Phase::Failed && step == Step::Failed(e),
            },
    {
        match check_reply(Operation::EnsureCollection, reply) {
            Err(e) => {
                self.phase = Phase::Failed;
                Step::Failed(e)
            },
            Ok(()) => {
                let mut points: Vec<Point> = Vec::new();
                core::mem::swap(&mut points, &mut self.points);
                self.phase = Phase::Upserting;
                proof {
                    assert forall|j: int| 0 <= j < points@.len() implies (
                    #[trigger] points@[j]).id == j && points@[j].text@ == old(
                        self,
                    ).chunk_texts()[j] && points@[j].vector@ == old(self).vectors()[j] by {}
                }
                Step::Upsert { points }
            },
        }
    }

    /// Takes the reply to the batch upsert, which ends the run.
    pub fn on_upsert(&mut self, reply: ServiceReply) -> (step: Step)
        requires
            old(self).wf(),
            old(self).phase_of() == Phase::Upserting,
        ensures
            final(self).wf(),
            final(self).chunk_texts() == old(self).chunk_texts(),
            final(self).collection_name() == old(self).collection_name(),
            match service_outcome(Operation::Upsert, reply) {
                Ok(_) => final(self).phase_of() == Phase::Finished && step is Finished,
                Err(e) => final(self).phase_of() == Phase::Failed && step == Step::Failed(e),
            },
    {
        match check_reply(Operation::Upsert, reply) {
            Err(e) => {
                self.phase = Phase::Failed;
                Step::Failed(e)
            },
            Ok(()) => {
                self.phase = Phase::Finished;
                Step::Finished
            },
        }
    }
}

/// Ingesting the same corpus twice gives the same ids in both runs: the
/// batches have one point per chunk, and point `j` carries id `j` and the
/// `j`-th chunk's text in each.
pub proof fn lemma_ids_stable(
    corpus: Seq<char>,
    texts1: Seq<Seq<char>>,
    texts2: Seq<Seq<char>>,
    batch1: Seq<Point>,
    batch2: Seq<Point>,
    vectors1: Seq<Seq<u32>>,
    vectors2: Seq<Seq<u32>>,
)
    requires
        chunks_of_text(corpus, texts1),
        chunks_of_text(corpus, texts2),
        batch_matches(batch1, texts1, vectors1),
        batch_matches(batch2, texts2, vectors2),
    ensures
        batch1.len() == batch2.len(),
        forall|j: int|
            0 <= j < batch1.len() ==> (#[trigger] batch1[j]).id == batch2[j].id && batch1[j].id
                == j && batch1[j].text@ == batch2[j].text@,
{
    lemma_chunking_deterministic(corpus, corpus, texts1, texts2);
}

} // verus!
