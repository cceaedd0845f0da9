use semantic_ingest::chunker::split_corpus;
use semantic_ingest::embedding::{accept_embedding, embed_request, EmbedConfig, EmbedReply};
use semantic_ingest::error::{status_ok, Operation, PipelineError};
use semantic_ingest::index::{check_reply, top_match, CollectionSpec, Distance, SearchReply, ServiceReply};
use semantic_ingest::ingest::{Ingestion, Phase, Step};

fn config() -> EmbedConfig {
    EmbedConfig::new(Some("secret-key".to_string()))
}

fn collection(size: usize) -> CollectionSpec {
    CollectionSpec::new("registration_collection".to_string(), size, Distance::Cosine)
}

fn answered(vector: Vec<u32>) -> EmbedReply {
    EmbedReply::Answered { status: 200, vector: Some(vector) }
}

#[test]
fn chunks_three_paragraphs() {
    let chunks = split_corpus("alpha text\n\nbeta text\n\ngamma text");
    assert_eq!(chunks, vec!["alpha text", "beta text", "gamma text"]);
}

#[test]
fn empty_corpus_has_no_chunk() {
    assert!(split_corpus("").is_empty());
}

#[test]
fn adjacent_delimiters_keep_empty_chunks() {
    assert_eq!(split_corpus("a\n\n\n\nb"), vec!["a", "", "b"]);
    assert_eq!(split_corpus("a\n\n"), vec!["a", ""]);
    assert_eq!(split_corpus("\n\n\n"), vec!["", "\n"]);
    assert_eq!(split_corpus("one\nline"), vec!["one\nline"]);
}

#[test]
fn chunks_keep_non_ascii_text() {
    assert_eq!(split_corpus("café\n\nüber\n\n日本"), vec!["café", "über", "日本"]);
}

#[test]
fn chunking_is_deterministic() {
    let corpus = "first\n\nsecond\n\n\n\nthird\n";
    assert_eq!(split_corpus(corpus), split_corpus(corpus));
}

#[test]
fn missing_credential_is_a_configuration_error() {
    let r = embed_request(&EmbedConfig::new(None), "alpha text");
    assert!(matches!(r, Err(PipelineError::MissingCredential)));
}

#[test]
fn request_carries_bearer_and_single_item_batch() {
    let req = embed_request(&config(), "alpha text").unwrap();
    assert_eq!(req.authorization, "Bearer secret-key");
    assert_eq!(req.body, b"[\"alpha text\"]".to_vec());
}

#[test]
fn request_body_escapes_text() {
    let req = embed_request(&config(), "say \"hi\"\n").unwrap();
    assert_eq!(String::from_utf8(req.body).unwrap(), "[\"say \\\"hi\\\"\\n\"]");
}

#[test]
fn non_array_body_is_a_deserialization_error() {
    let r = accept_embedding(EmbedReply::Answered { status: 200, vector: None }, 384);
    assert!(matches!(r, Err(PipelineError::Malformed(Operation::Embed))));
}

#[test]
fn provider_error_status_is_a_deserialization_error() {
    let r = accept_embedding(EmbedReply::Answered { status: 503, vector: Some(vec![1, 2]) }, 2);
    assert!(matches!(r, Err(PipelineError::Malformed(Operation::Embed))));
}

#[test]
fn unreachable_provider_is_a_transport_error() {
    let r = accept_embedding(EmbedReply::Unreachable, 384);
    assert!(matches!(r, Err(PipelineError::Transport(Operation::Embed))));
}

#[test]
fn wrong_dimension_is_rejected() {
    let r = accept_embedding(answered(vec![1, 2]), 3);
    assert!(matches!(r, Err(PipelineError::DimensionMismatch { expected: 3, found: 2 })));
}

#[test]
fn embedding_of_right_dimension_is_accepted() {
    assert_eq!(accept_embedding(answered(vec![7, 8, 9]), 3).unwrap(), vec![7, 8, 9]);
}

#[test]
fn status_classes() {
    assert!(status_ok(200));
    assert!(status_ok(299));
    assert!(!status_ok(199));
    assert!(!status_ok(300));
}

#[test]
fn index_replies() {
    assert!(check_reply(Operation::EnsureCollection, ServiceReply::Answered { status: 200, body: "{}".to_string() }).is_ok());
    assert_eq!(
        check_reply(Operation::Upsert, ServiceReply::Answered { status: 400, body: "bad points".to_string() }),
        Err(PipelineError::Rejected { operation: Operation::Upsert, status: 400, body: "bad points".to_string() })
    );
    assert!(matches!(
        check_reply(Operation::Upsert, ServiceReply::Unreachable),
        Err(PipelineError::Transport(Operation::Upsert))
    ));
}

#[test]
fn ensure_collection_twice_succeeds_both_times() {
    for _ in 0..2 {
        let (mut run, step) = Ingestion::start(config(), "", collection(2));
        assert!(matches!(step, Step::EnsureCollection));
        let step = run.on_collection(ServiceReply::Answered { status: 200, body: "{}".to_string() });
        assert!(matches!(step, Step::Upsert { ref points } if points.is_empty()));
        assert_eq!(run.phase(), Phase::Upserting);
    }
}

#[test]
fn empty_result_list_is_no_match() {
    let r = top_match(SearchReply::Answered { status: 200, body: String::new(), ids: Some(vec![]) });
    assert!(matches!(r, Err(PipelineError::NoMatch)));
}

#[test]
fn search_replies() {
    assert_eq!(top_match(SearchReply::Answered { status: 200, body: String::new(), ids: Some(vec![0, 2, 1]) }).unwrap(), 0);
    assert_eq!(
        top_match(SearchReply::Answered { status: 404, body: "no collection".to_string(), ids: None }),
        Err(PipelineError::Rejected { operation: Operation::Search, status: 404, body: "no collection".to_string() })
    );
    assert!(matches!(
        top_match(SearchReply::Answered { status: 200, body: String::new(), ids: None }),
        Err(PipelineError::Malformed(Operation::Search))
    ));
    assert!(matches!(top_match(SearchReply::Unreachable), Err(PipelineError::Transport(Operation::Search))));
}

#[test]
fn ingestion_without_credential_makes_no_request() {
    let (run, step) = Ingestion::start(EmbedConfig::new(None), "alpha\n\nbeta", collection(2));
    assert!(matches!(step, Step::Failed(PipelineError::MissingCredential)));
    assert_eq!(run.phase(), Phase::Failed);
}

fn ingest(corpus: &str) -> Vec<(u64, Vec<u32>, String)> {
    let (mut run, mut step) = Ingestion::start(config(), corpus, collection(2));
    let mut seen: Vec<u64> = Vec::new();
    loop {
        step = match step {
            Step::Embed { id, request } => {
                assert_eq!(request.authorization, "Bearer secret-key");
                seen.push(id);
                run.on_embedding(answered(vec![id as u32, 100 + id as u32]))
            }
            Step::EnsureCollection => run.on_collection(ServiceReply::Answered { status: 200, body: "{}".to_string() }),
            Step::Upsert { points } => {
                assert!(matches!(run.on_upsert(ServiceReply::Answered { status: 200, body: "{}".to_string() }), Step::Finished));
                assert_eq!(run.phase(), Phase::Finished);
                let ids: Vec<u64> = points.iter().map(|p| p.id).collect();
                assert_eq!(ids, seen);
                return points.into_iter().map(|p| (p.id, p.vector, p.text)).collect();
            }
            Step::Finished => panic!("finished before upsert"),
            Step::Failed(e) => panic!("run failed: {:?}", e),
        };
    }
}

#[test]
fn round_trip_scenario() {
    let points = ingest("alpha text\n\nbeta text\n\ngamma text");
    assert_eq!(
        points,
        vec![
            (0, vec![0, 100], "alpha text".to_string()),
            (1, vec![1, 101], "beta text".to_string()),
            (2, vec![2, 102], "gamma text".to_string()),
        ]
    );
    let best = top_match(SearchReply::Answered { status: 200, body: String::new(), ids: Some(vec![0, 1, 2]) });
    assert_eq!(best.unwrap(), 0);
}

#[test]
fn reingestion_keeps_ids() {
    let corpus = "one\n\ntwo\n\n\n\nfour";
    assert_eq!(ingest(corpus), ingest(corpus));
}

#[test]
fn dimension_mismatch_stops_the_run() {
    let (mut run, step) = Ingestion::start(config(), "alpha\n\nbeta", collection(2));
    assert!(matches!(step, Step::Embed { id: 0, .. }));
    let step = run.on_embedding(answered(vec![1, 2, 3]));
    assert!(matches!(step, Step::Failed(PipelineError::DimensionMismatch { expected: 2, found: 3 })));
    assert_eq!(run.phase(), Phase::Failed);
}

#[test]
fn embedding_failure_stops_the_run() {
    let (mut run, _) = Ingestion::start(config(), "alpha\n\nbeta", collection(2));
    let step = run.on_embedding(EmbedReply::Answered { status: 200, vector: None });
    assert!(matches!(step, Step::Failed(PipelineError::Malformed(Operation::Embed))));
}

#[test]
fn rejected_collection_stops_before_upload() {
    let (mut run, _) = Ingestion::start(config(), "", collection(2));
    let step = run.on_collection(ServiceReply::Answered { status: 400, body: "unknown distance".to_string() });
    match step {
        Step::Failed(PipelineError::Rejected { operation, status, body }) => {
            assert_eq!(operation, Operation::EnsureCollection);
            assert_eq!(status, 400);
            assert_eq!(body, "unknown distance");
        }
        _ => panic!("expected a rejection"),
    }
    assert_eq!(run.phase(), Phase::Failed);
}

#[test]
fn credential_unfit_for_a_header_is_rejected() {
    let r = embed_request(&EmbedConfig::new(Some("bad\nkey".to_string())), "alpha text");
    assert!(matches!(r, Err(PipelineError::InvalidCredential)));
    let (run, step) = Ingestion::start(EmbedConfig::new(Some("bad\u{7f}".to_string())), "alpha", collection(2));
    assert!(matches!(step, Step::Failed(PipelineError::InvalidCredential)));
    assert_eq!(run.phase(), Phase::Failed);
}

#[test]
fn credential_with_tab_is_accepted() {
    let req = embed_request(&EmbedConfig::new(Some("a\tb".to_string())), "x").unwrap();
    assert_eq!(req.authorization, "Bearer a\tb");
}

#[test]
fn empty_chunks_are_embedded_and_uploaded() {
    let points = ingest("a\n\n\n\nb");
    let texts: Vec<(u64, String)> = points.into_iter().map(|(id, _, t)| (id, t)).collect();
    assert_eq!(texts, vec![(0, "a".to_string()), (1, String::new()), (2, "b".to_string())]);
    let req = embed_request(&config(), "").unwrap();
    assert_eq!(req.body, b"[\"\"]".to_vec());
}

#[test]
fn rejected_upsert_carries_the_body() {
    let (mut run, _) = Ingestion::start(config(), "", collection(2));
    let _ = run.on_collection(ServiceReply::Answered { status: 200, body: String::new() });
    let step = run.on_upsert(ServiceReply::Answered { status: 422, body: "wrong dimension".to_string() });
    assert!(matches!(step, Step::Failed(PipelineError::Rejected { status: 422, .. })));
}
