use voiceflow_core::memory::{
    AudioBufferPool, ResourceManager, TextProcessorResource, VoiceEngineResource,
};

const SEC: u64 = 1_000;

fn engine_with_buffers(id: &str, now: u64) -> VoiceEngineResource {
    let mut e = VoiceEngineResource::new(id.to_string(), now);
    e.audio_pool = vec![vec![1, 2, 3], vec![4]];
    e.buffer_size = 3;
    e.initialized = true;
    e.memory_usage = 64;
    e
}

#[test]
fn staleness_threshold() {
    let now = 1_000 * SEC;
    let idle_301 = TextProcessorResource::new("a".to_string(), now - 301 * SEC);
    let idle_299 = TextProcessorResource::new("b".to_string(), now - 299 * SEC);
    let idle_300 = TextProcessorResource::new("c".to_string(), now - 300 * SEC);
    assert!(idle_301.is_stale(now));
    assert!(!idle_299.is_stale(now));
    assert!(!idle_300.is_stale(now));
    let engine = VoiceEngineResource::new("e".to_string(), now - 301 * SEC);
    assert!(engine.is_stale(now));
}

#[test]
fn cleanup_prunes_idle_301_keeps_idle_299() {
    let now = 1_000 * SEC;
    let mut m = ResourceManager::new(0);
    m.register_text_processor("old".to_string(), TextProcessorResource::new("old".to_string(), now - 301 * SEC));
    m.register_text_processor("new".to_string(), TextProcessorResource::new("new".to_string(), now - 299 * SEC));
    m.register_voice_engine("v".to_string(), VoiceEngineResource::new("v".to_string(), now - 301 * SEC));
    assert!(m.cleanup(now));
    assert!(m.get_text_processor("old").is_none());
    assert!(m.get_text_processor("new").is_some());
    assert!(m.get_voice_engine("v").is_none());
    assert_eq!(m.get_active_resources(), (0, 1));
}

#[test]
fn second_cleanup_while_running_is_a_no_op() {
    let now = 1_000 * SEC;
    let mut m = ResourceManager::new(0);
    m.register_voice_engine("a".to_string(), engine_with_buffers("a", now - 400 * SEC));
    m.register_voice_engine("b".to_string(), engine_with_buffers("b", now));
    assert!(m.try_begin_cleanup());
    assert!(!m.try_begin_cleanup());
    assert!(!m.cleanup(now));
    assert_eq!(m.get_active_resources(), (2, 0));
    assert_eq!(m.get_voice_engine("b").unwrap().audio_pool.len(), 2);
    assert_eq!(m.get_memory_usage(), 128);
    assert!(!m.needs_cleanup(0));
}

#[test]
fn scenario_prune_keeps_recent_buffers() {
    let now = 1_000 * SEC;
    let mut m = ResourceManager::new(now);
    m.register_voice_engine("a".to_string(), engine_with_buffers("a", now - 310 * SEC));
    m.register_voice_engine("b".to_string(), engine_with_buffers("b", now - 10 * SEC));
    assert!(m.cleanup(now));
    assert!(m.get_voice_engine("a").is_none());
    let b = m.get_voice_engine("b").unwrap();
    assert_eq!(b.audio_pool, vec![vec![1, 2, 3], vec![4]]);
    assert_eq!(b.buffer_size, 3);
    assert!(b.initialized);
    m.force_cleanup();
    let b = m.get_voice_engine("b").unwrap();
    assert!(b.audio_pool.is_empty());
    assert_eq!(b.buffer_size, 0);
    assert!(!b.initialized);
    assert_eq!(b.memory_usage, 0);
}

#[test]
fn cleanup_keeps_survivors_intact() {
    let now = 1_000 * SEC;
    let mut m = ResourceManager::new(0);
    m.register_voice_engine("a".to_string(), engine_with_buffers("a", now - 310 * SEC));
    m.register_voice_engine("b".to_string(), engine_with_buffers("b", now - 10 * SEC));
    let mut t = TextProcessorResource::new("t".to_string(), now);
    t.processing_queue = vec!["x".to_string()];
    t.cache_size = 9;
    t.memory_usage = 5;
    m.register_text_processor("t".to_string(), t);
    assert_eq!(m.get_memory_usage(), 133);
    assert!(m.needs_cleanup(now));
    assert!(m.cleanup(now));
    assert!(m.get_voice_engine("a").is_none());
    let b = m.get_voice_engine("b").unwrap();
    assert_eq!(b.audio_pool, vec![vec![1, 2, 3], vec![4]]);
    assert!(b.initialized);
    let t = m.get_text_processor("t").unwrap();
    assert_eq!(t.processing_queue, vec!["x".to_string()]);
    assert_eq!(t.cache_size, 9);
    assert_eq!(m.get_memory_usage(), 69);
    assert!(!m.needs_cleanup(now + 30 * SEC));
    assert!(m.needs_cleanup(now + 30 * SEC + 1));
    assert!(m.try_begin_cleanup());
    m.force_cleanup();
    assert!(m.get_voice_engine("b").unwrap().audio_pool.is_empty());
    assert!(m.get_text_processor("t").unwrap().processing_queue.is_empty());
}

#[test]
fn register_and_unregister_update_memory() {
    let mut m = ResourceManager::new(0);
    assert_eq!(m.get_memory_usage(), 0);
    m.register_voice_engine("a".to_string(), engine_with_buffers("a", 0));
    let mut t = TextProcessorResource::new("t".to_string(), 0);
    t.memory_usage = 36;
    m.register_text_processor("t".to_string(), t);
    assert_eq!(m.get_memory_usage(), 100);
    assert_eq!(m.get_active_resources(), (1, 1));
    m.register_voice_engine("a".to_string(), VoiceEngineResource::new("a".to_string(), 0));
    assert_eq!(m.get_memory_usage(), 36);
    m.unregister_text_processor("t");
    assert_eq!(m.get_memory_usage(), 0);
    m.unregister_voice_engine("a");
    m.unregister_voice_engine("missing");
    assert_eq!(m.get_active_resources(), (0, 0));
}

#[test]
fn memory_estimate_saturates() {
    let mut m = ResourceManager::new(0);
    let mut a = VoiceEngineResource::new("a".to_string(), 0);
    a.memory_usage = u64::MAX;
    let mut b = VoiceEngineResource::new("b".to_string(), 0);
    b.memory_usage = 10;
    m.register_voice_engine("a".to_string(), a);
    m.register_voice_engine("b".to_string(), b);
    assert_eq!(m.get_memory_usage(), u64::MAX);
}

#[test]
fn marking_activity_keeps_resource_fresh() {
    let now = 1_000 * SEC;
    let mut m = ResourceManager::new(0);
    m.register_voice_engine("v".to_string(), VoiceEngineResource::new("v".to_string(), 0));
    m.register_text_processor("t".to_string(), TextProcessorResource::new("t".to_string(), 0));
    assert!(m.mark_voice_engine_activity("v", now));
    assert!(m.mark_text_processor_activity("t", now));
    assert!(!m.mark_voice_engine_activity("nope", now));
    assert!(!m.mark_text_processor_activity("nope", now));
    assert_eq!(m.get_voice_engine("v").unwrap().last_activity, now);
    assert!(m.cleanup(now + 100 * SEC));
    assert_eq!(m.get_active_resources(), (1, 1));
}

#[test]
fn resource_cleanup_and_cache() {
    let mut e = engine_with_buffers("e", 5);
    e.clear_cache();
    assert!(e.audio_pool.is_empty());
    assert_eq!(e.buffer_size, 0);
    assert_eq!(e.estimate_memory_usage(), 0);
    assert!(e.initialized);
    e.cleanup();
    assert!(!e.initialized);
    e.mark_activity(99);
    assert_eq!(e.last_activity, 99);

    let mut t = TextProcessorResource::new("t".to_string(), 1);
    assert_eq!(t.id, "t");
    assert_eq!(t.last_activity, 1);
    assert!(!t.initialized);
    t.processing_queue.push("job".to_string());
    t.cache_size = 4;
    t.memory_usage = 7;
    t.initialized = true;
    assert_eq!(t.estimate_memory_usage(), 7);
    t.clear_cache();
    assert!(t.processing_queue.is_empty());
    assert_eq!(t.cache_size, 0);
    assert_eq!(t.memory_usage, 0);
    assert!(t.initialized);
    t.cleanup();
    assert!(!t.initialized);
    t.mark_activity(3);
    assert_eq!(t.last_activity, 3);
}

#[test]
fn buffer_pool_reuses_silenced_buffers() {
    let mut p = AudioBufferPool::new(4, 1);
    let b = p.get_buffer();
    assert_eq!(b, vec![0, 0, 0, 0]);
    p.return_buffer(vec![7, 7, 7, 7]);
    p.return_buffer(vec![9, 9, 9, 9]);
    p.return_buffer(vec![1, 2]);
    assert_eq!(p.get_buffer(), vec![0, 0, 0, 0]);
    assert_eq!(p.get_buffer(), vec![0, 0, 0, 0]);
    p.return_buffer(vec![5, 5, 5, 5]);
    p.clear_pool();
    assert_eq!(p.get_buffer(), vec![0, 0, 0, 0]);
}
