use iso2raw::converter::{convert_image, convert_iso_to_raw, ConvertError};
use iso2raw::parallel::ParallelProcessor;

#[test]
fn test_convert_image_end_to_end() {
    // Ten consecutive sectors of the same byte value.
    let iso_data = vec![0xABu8; 2048 * 10];
    let out = convert_image(&iso_data).unwrap();

    assert_eq!(out.len(), 2352 * 10);

    // Sector 0 sits at LBA 0: timecode 00:02:00 in BCD.
    assert_eq!(&out[12..15], &[0x00, 0x02, 0x00]);
    assert_eq!(out[15], 0x01);

    // Sector 9 sits at LBA 9, 159 frames after the lead-in start:
    // timecode 00:02:09 in BCD.
    let s9 = 9 * 2352;
    assert_eq!(&out[s9 + 12..s9 + 15], &[0x00, 0x02, 0x09]);

    // Every sector of the stream is exactly the single-sector conversion.
    for lba in 0..10usize {
        let raw = convert_iso_to_raw(lba as u32, &iso_data[lba * 2048..(lba + 1) * 2048]).unwrap();
        assert_eq!(&out[lba * 2352..(lba + 1) * 2352], &raw[..]);
    }
}

#[test]
fn test_rejects_unaligned_image() {
    // An image whose length is no multiple of 2048 is rejected before any
    // sector is processed.
    let iso_data = vec![0u8; 1000];
    match convert_image(&iso_data) {
        Err(ConvertError::SizeMismatch { expected, got }) => {
            assert_eq!(expected, 2048);
            assert_eq!(got, 1000);
        }
        Ok(_) => panic!("a 1000-byte image must be rejected"),
    }

    let iso_data = vec![0u8; 2048 * 3 + 1];
    assert!(convert_image(&iso_data).is_err());
}

#[test]
fn test_convert_wrong_block_size() {
    let small = vec![0xCCu8; 100];
    match convert_iso_to_raw(0, &small) {
        Err(ConvertError::SizeMismatch { expected, got }) => {
            assert_eq!(expected, 2048);
            assert_eq!(got, 100);
        }
        Ok(_) => panic!("a 100-byte block must be rejected"),
    }
}

#[test]
fn test_empty_image() {
    // Zero bytes split into zero sectors.
    let out = convert_image(&[]).unwrap();
    assert!(out.is_empty());
}

#[test]
fn test_worker_count_does_not_change_output() {
    // Fan the sectors out as the batch driver would for 1, 2 and 8
    // workers, let the "workers" finish in an arbitrary order, restore
    // LBA order, and compare against the sequential conversion.
    let total = 12usize;
    let mut iso_data = Vec::new();
    for lba in 0..total {
        iso_data.extend(std::iter::repeat(lba as u8).take(2048));
    }
    let sequential = convert_image(&iso_data).unwrap();

    for workers in [1usize, 2, 8] {
        let processor = ParallelProcessor::new(Some(workers));
        assert_eq!(processor.num_workers(), workers);

        // Worker w takes the LBAs congruent to w, and each worker's
        // results arrive before the next worker's, so completion order
        // differs from input order.
        let mut results: Vec<(usize, Vec<u8>)> = Vec::new();
        for w in 0..processor.num_workers() {
            let mut lba = w;
            while lba < total {
                let block = &iso_data[lba * 2048..(lba + 1) * 2048];
                results.push((lba, convert_iso_to_raw(lba as u32, block).unwrap()));
                lba += processor.num_workers();
            }
        }
        results.sort_by_key(|(lba, _)| *lba);

        let mut collected = Vec::new();
        for (_, raw) in results {
            collected.extend(raw);
        }
        assert_eq!(collected, sequential, "worker count {} changed the output", workers);
    }
}

#[test]
fn test_parallel_processor_defaults() {
    let processor = ParallelProcessor::new(None);
    assert!(processor.num_workers() >= 1);
    assert!(processor.num_workers() <= 8);
    assert_eq!(processor.chunk_size(), 64);

    let explicit = ParallelProcessor::new(Some(3));
    assert_eq!(explicit.num_workers(), 3);
    assert_eq!(explicit.chunk_size(), 64);
}
