use claude_router::streaming::{StreamBuffer, StreamingManager};
use futures::stream::{self, StreamExt};
use std::time::Duration;

#[test]
fn test_streaming_manager_creation() {
    let _manager = StreamingManager::new();
}

#[test]
fn test_streaming_config_creation() {
    let config = StreamingManager::default_config();
    assert_eq!(config.buffer_size, 100);
    assert_eq!(config.timeout(), Duration::from_secs(30));
    assert_eq!(config.timeout_secs, 30);
    assert_eq!(config.max_concurrent_streams, 100);
}

#[test]
fn test_stream_buffer() {
    let manager = StreamingManager::new();
    let buffer = manager.with_buffer_hint::<String>(50);
    assert_eq!(buffer.buffer_size(), 50);
}

#[test]
fn merging_keeps_every_stream_in_order() {
    let manager = StreamingManager::new();
    assert_eq!(manager.merge_streams(vec![3, 4, 5]), Ok(vec![3, 4, 5]));
    assert_eq!(manager.merge_streams(vec![9]), Ok(vec![9]));
    assert_eq!(manager.merge_streams(Vec::<u8>::new()), Err("No streams to merge".to_string()));
}

#[test]
fn merged_streams_yield_every_item_once() {
    let manager = StreamingManager::new();
    let parts = manager
        .merge_streams(vec![stream::iter(vec![1, 2]).boxed(), stream::iter(vec![3]).boxed()])
        .unwrap();
    let items: Vec<i32> = futures::executor::block_on(stream::iter(parts).flatten().collect());
    assert_eq!(items, vec![1, 2, 3]);
}

#[test]
fn compression_leaves_the_stream_and_config_is_kept() {
    let mut config = StreamingManager::default_config();
    config.enable_compression = true;
    config.buffer_size = 7;
    let manager = StreamingManager::with_config(config);
    assert_eq!(manager.apply_compression(vec![1, 2]), vec![1, 2]);
    assert_eq!(manager.config().buffer_size, 7);
    assert!(!StreamingManager::default_config().enable_compression);
    assert_eq!(StreamBuffer::<u8>::new(0).buffer_size(), 0);
}
