use fluxdm_engine::{backoff_delay, Chunk, ChunkConfig, ChunkedDownloader};

#[test]
fn test_chunk_calculation() {
    let config = ChunkConfig {
        chunk_count: 4,
        min_chunk_size: 100,
        ..ChunkConfig::default()
    };
    let downloader = ChunkedDownloader::with_config(config);

    // test file split into 4 chunks
    let chunks = downloader.calculate_chunks(1000);
    assert_eq!(chunks.len(), 4);

    // verify chunks are contiguous
    assert_eq!(chunks[0].start, 0);
    assert_eq!(chunks[0].end, 249);
    assert_eq!(chunks[1].start, 250);
    assert_eq!(chunks[1].end, 499);
    assert_eq!(chunks[2].start, 500);
    assert_eq!(chunks[2].end, 749);
    assert_eq!(chunks[3].start, 750);
    assert_eq!(chunks[3].end, 999);
}

#[test]
fn test_small_file_single_chunk() {
    let config = ChunkConfig {
        chunk_count: 8,
        min_chunk_size: 1_000_000,
        ..ChunkConfig::default()
    };
    let downloader = ChunkedDownloader::with_config(config);

    // file smaller than min_chunk_size should be single chunk
    let chunks = downloader.calculate_chunks(500_000);
    assert_eq!(chunks.len(), 1);
    assert_eq!(chunks[0].start, 0);
    assert_eq!(chunks[0].end, 499_999);
}

#[test]
fn test_chunk_size_calculation() {
    let chunk = Chunk {
        index: 0,
        start: 100,
        end: 199,
        downloaded: 0,
    };
    assert_eq!(chunk.size(), 100);
}

#[test]
fn test_chunk_resume_tracking() {
    let mut chunk = Chunk {
        index: 0,
        start: 0,
        end: 999,
        downloaded: 500,
    };

    assert_eq!(chunk.size(), 1000);
    assert_eq!(chunk.remaining(), 500);
    assert_eq!(chunk.resume_position(), 500);
    assert!(!chunk.is_complete());

    // simulate completing the chunk
    chunk.downloaded = 1000;
    assert_eq!(chunk.remaining(), 0);
    assert!(chunk.is_complete());
}

#[test]
fn test_resume_detection_no_file() {
    let downloader = ChunkedDownloader::new();

    // no file on disk: no length to credit
    let chunks = downloader.detect_resume(None, 8_000_000);

    // should return fresh chunks (all with downloaded=0)
    assert_eq!(chunks.len(), 8);
    for chunk in chunks {
        assert_eq!(chunk.downloaded, 0);
        assert!(!chunk.is_complete());
    }
}

#[test]
fn test_resume_detection_partial_file() {
    let downloader = ChunkedDownloader::new();

    // partial file (2.5MB of an 8MB file)
    let partial_size = 2_621_440u64;
    let total_size = 8_388_608u64;
    let chunks = downloader.detect_resume(Some(partial_size), total_size);

    assert_eq!(chunks.len(), 8);

    // each chunk is 1MB (1_048_576 bytes)
    // partial_size is 2.5MB, so first 2 chunks complete, 3rd chunk half done
    assert_eq!(chunks[0].downloaded, 1_048_576);
    assert_eq!(chunks[1].downloaded, 1_048_576);
    assert_eq!(chunks[2].downloaded, 524_288);
    assert_eq!(chunks[3].downloaded, 0);

    assert!(chunks[0].is_complete());
    assert!(chunks[1].is_complete());
    assert!(!chunks[2].is_complete());
    assert!(!chunks[3].is_complete());
}

#[test]
fn test_resume_detection_complete_file() {
    let downloader = ChunkedDownloader::new();

    // complete file (8MB)
    let file_size = 8_388_608u64;
    let chunks = downloader.detect_resume(Some(file_size), file_size);

    // all chunks should be complete
    assert_eq!(chunks.len(), 8);
    for chunk in chunks {
        assert!(chunk.is_complete());
        assert_eq!(chunk.remaining(), 0);
    }
}

#[test]
fn test_retry_config() {
    let config = ChunkConfig::default();
    assert_eq!(config.max_retries, 3);
    assert_eq!(config.retry_delay_ms, 1000);
    assert!(config.exponential_backoff);
}

#[test]
fn test_custom_retry_config() {
    let config = ChunkConfig {
        chunk_count: 4,
        min_chunk_size: 512_000,
        max_retries: 5,
        retry_delay_ms: 500,
        exponential_backoff: false,
    };

    let downloader = ChunkedDownloader::with_config(config.clone());
    assert_eq!(downloader.config.max_retries, 5);
    assert_eq!(downloader.config.retry_delay_ms, 500);
    assert!(!downloader.config.exponential_backoff);
}

#[test]
fn test_exponential_backoff_delays() {
    // exponential backoff from a base delay of one second
    let config = ChunkConfig {
        retry_delay_ms: 1000,
        exponential_backoff: true,
        ..ChunkConfig::default()
    };

    // attempt 1: 1s (2^0 = 1)
    let delay1 = backoff_delay(&config, 1);
    assert_eq!(delay1, 1000);

    // attempt 2: 2s (2^1 = 2)
    let delay2 = backoff_delay(&config, 2);
    assert_eq!(delay2, 2000);

    // attempt 3: 4s (2^2 = 4)
    let delay3 = backoff_delay(&config, 3);
    assert_eq!(delay3, 4000);

    // attempt 4: 8s (2^3 = 8)
    let delay4 = backoff_delay(&config, 4);
    assert_eq!(delay4, 8000);
}

#[test]
fn test_chunk_calculation_integration() {
    let downloader = ChunkedDownloader::new();

    // test with 8MB file (should split into 8 chunks)
    let file_size = 8_388_608;
    let chunks = downloader.calculate_chunks(file_size);

    assert_eq!(chunks.len(), 8);

    // verify all chunks cover the entire file
    assert_eq!(chunks[0].start, 0);
    assert_eq!(chunks[7].end, file_size - 1);

    // verify chunks are contiguous (no gaps)
    for i in 0..chunks.len() - 1 {
        assert_eq!(chunks[i].end + 1, chunks[i + 1].start);
    }

    // verify total size matches
    let total_size: u64 = chunks.iter().map(|c| c.size()).sum();
    assert_eq!(total_size, file_size);
}
