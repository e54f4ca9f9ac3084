use truthsync_core::buffer::{Channel, ChannelError, GET_RESULTS, HEADER_SIZE, PROCESS_TEXT};
use truthsync_core::cache::{ClaimPredictor, PredictiveCache};
use truthsync_core::calibration::{ProcessingDecision, TruthSyncEngine, TruthSyncVerifier};
use truthsync_core::events::{Event, EventSource, EventType, Severity};
use truthsync_core::numfmt::u64_to_string;
use truthsync_core::patterns::PatternDetector;
use truthsync_core::subbuffer::SubBufferManager;
use truthsync_core::ClaimExtractor;

fn event(id: u64, event_type: EventType) -> Event {
    Event {
        id: u64_to_string(id),
        source: EventSource::Auditd,
        timestamp: 0,
        severity: Severity::Low,
        event_type,
        metadata: "{}".to_string(),
    }
}

#[test]
fn test_cache_basic() {
    let mut cache = PredictiveCache::new(10, 60).unwrap();

    let key = 123;
    let claims = vec!["Test claim".to_string()];

    cache.put(key, claims.clone(), 9000, 0);

    let result = cache.get(key, 1);
    assert!(result.is_some());
    assert_eq!(result.unwrap(), claims);
}

#[test]
fn test_predictor() {
    let predictor = ClaimPredictor::new().unwrap();

    let factual = "The unemployment rate is 3.5% according to statistics.";
    let score1 = predictor.predict_claim_likelihood(factual);

    let opinion = "I think maybe we should probably consider this.";
    let score2 = predictor.predict_claim_likelihood(opinion);

    assert!(score1 > score2);
    assert!(score1 > 5000);
}

#[test]
fn test_scorer_ordering() {
    let predictor = ClaimPredictor::new().unwrap();
    let s1 = predictor.predict_claim_likelihood(
        "The unemployment rate is 3.5% according to the Bureau of Labor Statistics.",
    );
    let s2 = predictor.predict_claim_likelihood("I think maybe we should probably consider this.");
    assert!(s1 > s2);
}

#[test]
fn test_scorer_uppercase_text_is_folded() {
    // The score counts matches in the lowercased text: an all-caps factual
    // sentence must still score above zero.
    let predictor = ClaimPredictor::new().unwrap();
    let score = predictor.predict_claim_likelihood("THE UNEMPLOYMENT RATE IS 3.5% TODAY.");
    assert!(score > 0);
}

#[test]
fn test_scorer_empty_text() {
    let predictor = ClaimPredictor::new().unwrap();
    assert_eq!(predictor.predict_claim_likelihood(""), 0);
}

#[test]
fn test_predictor_learn_counts() {
    let mut predictor = ClaimPredictor::new().unwrap();
    predictor.learn("Data shows results", true);
    assert_eq!(predictor.pattern_freq.len(), 3);
    assert_eq!(predictor.pattern_freq[0], (b"data".to_vec(), 1));
    assert_eq!(predictor.pattern_freq[1], (b"shows".to_vec(), 1));
    assert_eq!(predictor.pattern_freq[2], (b"results".to_vec(), 1));

    // Without claims the entries stay but no count grows.
    predictor.learn("data shows results", false);
    assert_eq!(predictor.pattern_freq.len(), 3);
    assert_eq!(predictor.pattern_freq[0], (b"data".to_vec(), 1));

    // With claims the counts grow.
    predictor.learn("data", true);
    assert_eq!(predictor.pattern_freq[0], (b"data".to_vec(), 2));
}

#[test]
fn test_lru_eviction() {
    // Capacity two: A and B fill the cache, C evicts A (the back), and a
    // fourth key D evicts B, the least recently touched entry.
    let mut cache = PredictiveCache::new(2, 600).unwrap();
    cache.put(1, vec!["a".to_string()], 9000, 0);
    cache.put(2, vec!["b".to_string()], 9000, 1);
    cache.put(3, vec!["c".to_string()], 9000, 2);
    assert!(cache.get(1, 3).is_none());
    cache.put(4, vec!["d".to_string()], 9000, 4);
    assert!(cache.get(2, 5).is_none());
    assert!(cache.get(3, 6).is_some());
    assert!(cache.get(4, 7).is_some());
}

#[test]
fn test_ttl_expiry() {
    let mut cache = PredictiveCache::new(10, 60).unwrap();
    cache.put(1, vec!["stale".to_string()], 9000, 100);
    cache.put(2, vec!["fresh".to_string()], 9000, 150);
    cache.evict_expired(200);
    assert!(cache.get(1, 201).is_none());
    assert!(cache.get(2, 202).is_some());
}

#[test]
fn test_cache_stats_counts() {
    let mut cache = PredictiveCache::new(10, 600).unwrap();
    cache.put(1, vec!["a".to_string()], 8000, 0);
    cache.put(2, vec!["b".to_string()], 4000, 1);
    let _ = cache.get(1, 2);
    let _ = cache.get(1, 3);
    let stats = cache.stats();
    assert_eq!(stats.entries, 2);
    assert_eq!(stats.total_hits, 2);
    assert_eq!(stats.avg_confidence, 6000);
    // hits * 10000 / (hits + entries) = 2 * 10000 / 4
    assert_eq!(stats.hit_rate, 5000);
}

#[test]
fn test_verifier_accuracy() {
    let mut verifier = TruthSyncVerifier::new();

    verifier.record_prediction(1, 9000, 0);
    verifier.record_prediction(2, 3000, 0);

    let result1 = verifier.verify(1, true);
    let result2 = verifier.verify(2, false);

    assert!(result1.was_correct);
    assert!(result2.was_correct);
    assert_eq!(verifier.accuracy(), 10000);
}

#[test]
fn test_threshold_adjustment() {
    let mut verifier = TruthSyncVerifier::new();
    let initial_threshold = verifier.confidence_threshold;

    for i in 0..100 {
        verifier.record_prediction(i, 9000, 0);
        verifier.verify(i, false);
    }

    assert_ne!(verifier.confidence_threshold, initial_threshold);
    assert!(verifier.confidence_threshold < initial_threshold);
    assert!(verifier.confidence_threshold >= 5000);
    assert!(verifier.confidence_threshold <= 9000);
}

#[test]
fn test_verify_unknown_key_is_neutral() {
    let mut verifier = TruthSyncVerifier::new();
    let result = verifier.verify(42, true);
    assert!(!result.was_correct);
    assert_eq!(result.predicted_likelihood, 0);
    assert_eq!(result.current_accuracy, 0);
    assert_eq!(result.adjusted_confidence, 0);
    assert_eq!(verifier.total_predictions, 0);
}

#[test]
fn test_end_to_end_scenario() {
    let mut engine = TruthSyncEngine::new(10, 600).unwrap();
    let key = 7;

    let decision = engine.process_with_verification(key, "Tesla announced a new car.", 0);
    let likelihood = match decision {
        ProcessingDecision::Process(l) => l,
        _ => panic!("expected a process decision on an empty cache"),
    };
    assert!(likelihood > 0);
    assert!(likelihood > engine.verifier.confidence_threshold);

    let claims = vec!["Tesla announced a new car".to_string()];
    let verification = engine.update_and_verify(key, claims.clone(), 1);
    assert!(verification.was_correct);
    assert_eq!(verification.predicted_likelihood, likelihood);
    assert!(verification.actual_had_claims);

    let second = engine.process_with_verification(key, "Tesla announced a new car.", 2);
    match second {
        ProcessingDecision::CacheHit(cached) => assert_eq!(cached, claims),
        _ => panic!("expected a cache hit after the result was stored"),
    }
}

#[test]
fn test_engine_stats_format() {
    let engine = TruthSyncEngine::new(10, 600).unwrap();
    let expected = "TruthSync Stats:\nCache: 0 entries, 0.0% hit rate\n\
                    Predictions: 0/0 correct (100.0% accuracy)\nThreshold: 0.70";
    assert_eq!(engine.stats(), expected);
}

#[test]
fn test_channel_round_trip() {
    let mut channel = Channel::new(1024);
    let payload = b"Hello from Rust!";
    channel.write(PROCESS_TEXT, payload).unwrap();
    let (kind, data) = channel.read().unwrap();
    assert_eq!(kind, PROCESS_TEXT);
    assert_eq!(data, payload.to_vec());

    // Reading does not consume the slot.
    let (kind2, data2) = channel.read().unwrap();
    assert_eq!(kind2, PROCESS_TEXT);
    assert_eq!(data2, payload.to_vec());
}

#[test]
fn test_channel_capacity_boundary() {
    let mut channel = Channel::new(32);
    let exact = vec![7u8; 32 - HEADER_SIZE];
    assert_eq!(channel.write(GET_RESULTS, exact.as_slice()), Ok(()));
    let (kind, data) = channel.read().unwrap();
    assert_eq!(kind, GET_RESULTS);
    assert_eq!(data, exact);

    let too_big = vec![7u8; 32 - HEADER_SIZE + 1];
    assert_eq!(
        channel.write(GET_RESULTS, too_big.as_slice()),
        Err(ChannelError::PayloadTooLarge)
    );
    // The failed write left the stored frame alone.
    let (_, data2) = channel.read().unwrap();
    assert_eq!(data2, exact);
}

#[test]
fn test_channel_fresh_read_is_invalid() {
    let channel = Channel::new(64);
    assert_eq!(channel.read(), Err(ChannelError::InvalidFrame));
}

#[test]
fn test_sub_buffer_creation() {
    let manager = SubBufferManager::new(4, 4, 1024 * 1024);
    assert!(manager.is_ok());

    let mgr = manager.unwrap();
    assert_eq!(mgr.num_input_buffers(), 4);
    assert_eq!(mgr.num_output_buffers(), 4);
}

#[test]
fn test_sub_buffer_zero_pool_rejected() {
    assert!(matches!(
        SubBufferManager::new(0, 4, 1024),
        Err(ChannelError::AllocationError)
    ));
    assert!(matches!(
        SubBufferManager::new(4, 0, 1024),
        Err(ChannelError::AllocationError)
    ));
}

#[test]
fn test_pool_keys_are_stable() {
    let mut mgr = SubBufferManager::new(2, 2, 4096).unwrap();
    let k1 = mgr.write_input("hello world", 0).unwrap();
    let k2 = mgr.write_input("hello world", 1).unwrap();
    let k3 = mgr.write_input("another text", 2).unwrap();
    assert_eq!(k1, k2);
    assert_ne!(k1, k3);
}

#[test]
fn test_pool_fast_path() {
    // One output channel, so the round-robin cursor comes back to the
    // channel the fast path wrote.
    let mut mgr = SubBufferManager::new(2, 1, 4096).unwrap();
    // Nothing was produced yet: the output slot holds no frame.
    assert_eq!(mgr.read_output(), Err(ChannelError::InvalidFrame));

    let key = mgr.write_input("hello world", 0).unwrap();
    mgr.update_cache(key, vec!["a".to_string(), "b".to_string()], 9000, 1);

    // The second request for the same text is answered from the cache: a
    // results frame with the newline-joined claims lands on the output side.
    let key2 = mgr.write_input("hello world", 2).unwrap();
    assert_eq!(key, key2);
    let (kind, data) = mgr.read_output().unwrap();
    assert_eq!(kind, GET_RESULTS);
    assert_eq!(data, b"a\nb".to_vec());
}

#[test]
fn test_pool_cache_stats_format() {
    let mgr = SubBufferManager::new(1, 1, 1024).unwrap();
    assert_eq!(
        mgr.cache_stats(),
        "Cache: 0 entries, 0 hits, 0.0% hit rate, 0.00 avg confidence"
    );
}

#[test]
fn test_prewarm_changes_nothing() {
    let mut mgr = SubBufferManager::new(1, 1, 1024).unwrap();
    mgr.prewarm_batch(vec!["The economy is growing.".to_string()]);
    assert_eq!(
        mgr.cache_stats(),
        "Cache: 0 entries, 0 hits, 0.0% hit rate, 0.00 avg confidence"
    );
}

#[test]
fn test_claim_extraction() {
    let extractor = ClaimExtractor::new().unwrap();
    let text = "The sky is blue. I think it's beautiful. The earth is round.";
    let claims = extractor.extract(text);

    assert_eq!(claims.len(), 2);
    assert!(claims.contains(&"The sky is blue".to_string()));
    assert!(claims.contains(&"The earth is round".to_string()));
}

#[test]
fn test_claim_extraction_batch() {
    let extractor = ClaimExtractor::new().unwrap();
    let results = extractor.extract_batch(&["The sky is blue.", "I think so."]);
    assert_eq!(results.len(), 2);
    assert_eq!(results[0], vec!["The sky is blue".to_string()]);
    assert!(results[1].is_empty());
}

#[test]
fn test_pattern_detector_credential_stuffing() {
    let detector = PatternDetector::new();
    let mut events = Vec::new();
    for i in 0..51 {
        events.push(event(i, EventType::FailedLogin));
    }
    events.push(event(51, EventType::SuccessfulLoginNewIP));
    events.push(event(52, EventType::DiskFull));

    let patterns = detector.detect(&events);
    assert_eq!(patterns.len(), 1);
    assert_eq!(patterns[0].name, "Credential Stuffing Attack");
    assert_eq!(patterns[0].confidence, 9500);
    assert_eq!(patterns[0].severity, Severity::Critical);
    assert_eq!(patterns[0].events.len(), 52);
    assert_eq!(patterns[0].playbook, "intrusion_lockdown");
}

#[test]
fn test_pattern_detector_resource_exhaustion() {
    let detector = PatternDetector::new();
    let events = vec![
        event(0, EventType::MemoryLeak),
        event(1, EventType::CpuSpike),
        event(2, EventType::SlowResponse),
    ];
    let patterns = detector.detect(&events);
    assert_eq!(patterns.len(), 1);
    assert_eq!(patterns[0].name, "Resource Exhaustion");
    assert_eq!(patterns[0].confidence, 8500);
    assert_eq!(patterns[0].severity, Severity::High);
    assert_eq!(patterns[0].events.len(), 2);
    assert_eq!(patterns[0].playbook, "auto_remediation");
}

#[test]
fn test_pattern_detector_quiet_window() {
    let detector = PatternDetector::new();
    let events = vec![event(0, EventType::SlowResponse)];
    assert!(detector.detect(&events).is_empty());
}

#[test]
fn test_verifier_cleanup_old() {
    let mut verifier = TruthSyncVerifier::new();
    verifier.record_prediction(1, 9000, 0);
    verifier.record_prediction(2, 9000, 4000);
    verifier.cleanup_old(4100);
    // The first record aged past one hour and went away; verifying it is a
    // no-op, the younger record still verifies.
    let stale = verifier.verify(1, true);
    assert!(!stale.was_correct);
    let fresh = verifier.verify(2, true);
    assert!(fresh.was_correct);
}

#[test]
fn test_likelihood_exact_density() {
    // One factual match ("was") in 200 bytes: density = 1000000 / 200 = 5000
    // basis points, no opinion matches, so the score is exactly 5000.
    let predictor = ClaimPredictor::new().unwrap();
    let text = format!("was{}", "z".repeat(197));
    assert_eq!(predictor.predict_claim_likelihood(&text), 5000);
}

#[test]
fn test_adjusted_confidence_exact() {
    let mut verifier = TruthSyncVerifier::new();
    verifier.record_prediction(1, 8000, 0);
    let result = verifier.verify(1, true);
    assert!(result.was_correct);
    assert_eq!(result.current_accuracy, 10000);
    // raw * (1 + (1.0 - 0.85) / 2) = 8000 * 43 / 40
    assert_eq!(result.adjusted_confidence, 8600);
    // Accuracy above 0.95 raises the threshold: 7000 * 105 / 100.
    assert_eq!(verifier.confidence_threshold, 7350);
}

#[test]
fn test_accuracy_exact_half() {
    let mut verifier = TruthSyncVerifier::new();
    verifier.record_prediction(1, 9000, 0);
    verifier.record_prediction(2, 9000, 0);
    let result = verifier.verify(1, true);
    assert!(result.was_correct);
    // One correct out of two recorded: 5000 basis points.
    assert_eq!(verifier.accuracy(), 5000);
    // Accuracy below 0.85 lowers the threshold: 7000 * 95 / 100.
    assert_eq!(verifier.confidence_threshold, 6650);
}

#[test]
fn test_content_key_is_fnv1a() {
    // The content fingerprint is 64-bit FNV-1a over the text's bytes; "a"
    // hashes to the well-known vector below.
    let mut mgr = SubBufferManager::new(1, 1, 1024).unwrap();
    let key = mgr.write_input("a", 0).unwrap();
    assert_eq!(key, 0xaf63dc4c8601ec8c);
}

#[test]
fn test_channel_shutdown_kind() {
    let mut channel = Channel::new(64);
    channel.write(truthsync_core::buffer::SHUTDOWN, b"").unwrap();
    let (kind, data) = channel.read().unwrap();
    assert_eq!(kind, truthsync_core::buffer::SHUTDOWN);
    assert!(data.is_empty());
}

#[test]
fn test_decimal_rendering() {
    assert_eq!(u64_to_string(0), "0");
    assert_eq!(u64_to_string(7), "7");
    assert_eq!(u64_to_string(1234), "1234");
    assert_eq!(u64_to_string(1000000), "1000000");
}
