use ssz::Decode;
use ssz_types::typenum::U8192;
use ssz_types::VariableList;
use test_providers::constants::{EPOCH_SIZE, MERGE_BLOCK_NUMBER};
use test_providers::epoch::{
    load_epoch_acc, lookup_epoch_acc, EpochAccError, EpochAccSource, EpochAccumulator,
};
use test_providers::ranges::Ranges;

fn epochs(count: usize) -> Vec<[u8; 32]> {
    (0..count)
        .map(|i| {
            let mut hash = [0u8; 32];
            hash[0] = (i / 256) as u8;
            hash[31] = (i % 256) as u8;
            hash
        })
        .collect()
}

fn bytes(len: usize) -> Vec<u8> {
    (0..len).map(|i| (i * 7 + i / 64) as u8).collect()
}

fn path_of(block: u64) -> String {
    match lookup_epoch_acc(block, &epochs(1897)) {
        EpochAccSource::File { path } => path,
        EpochAccSource::NotNeeded => panic!("block {} is from before the merge", block),
    }
}

#[test]
fn blocks_from_the_merge_on_need_no_accumulator() {
    assert_eq!(lookup_epoch_acc(MERGE_BLOCK_NUMBER, &vec![]), EpochAccSource::NotNeeded);
    assert_eq!(lookup_epoch_acc(u64::MAX, &epochs(2)), EpochAccSource::NotNeeded);
}

#[test]
fn the_forks_before_the_merge_need_accumulators() {
    let epochs = epochs(1897);
    for (fork, range) in Ranges::into_vec(20, 19_000_000).iter().enumerate() {
        for block in range.blocks() {
            let source = lookup_epoch_acc(*block, &epochs);
            assert_eq!(source == EpochAccSource::NotNeeded, fork >= 7);
        }
    }
}

#[test]
fn accumulators_are_kept_by_the_hash_of_the_epoch() {
    let zeros = "00".repeat(31);
    assert_eq!(
        path_of(0),
        format!("./portal-accumulators/bridge_content/0x03{}00.portalcontent", zeros)
    );
    assert_eq!(path_of(EPOCH_SIZE - 1), path_of(0));
    assert_eq!(
        path_of(EPOCH_SIZE),
        format!("./portal-accumulators/bridge_content/0x03{}01.portalcontent", zeros)
    );
    let middle = "00".repeat(30);
    assert_eq!(
        path_of(MERGE_BLOCK_NUMBER - 1),
        format!("./portal-accumulators/bridge_content/0x0307{}68.portalcontent", middle)
    );
}

#[test]
fn paths_read_the_same_raw_and_escaped() {
    for block in [0, EPOCH_SIZE * 200, MERGE_BLOCK_NUMBER - 1] {
        let path = path_of(block);
        assert_eq!(format!("{:?}", path), format!("\"{}\"", path));
        assert_eq!(
            load_epoch_acc(path.clone(), None).unwrap_err().message(),
            format!("Unable to find local epoch acc at path: {:?}", path)
        );
    }
}

#[test]
fn different_epochs_have_different_files() {
    assert_ne!(path_of(EPOCH_SIZE * 3), path_of(EPOCH_SIZE * 4));
    assert_ne!(path_of(EPOCH_SIZE * 256), path_of(EPOCH_SIZE));
}

#[test]
fn files_read_as_records() {
    let bytes = bytes(192);
    let accumulator = EpochAccumulator::from_ssz_bytes(&bytes).unwrap();
    assert_eq!(accumulator.records.len(), 3);
    assert_eq!(accumulator.records[0].block_hash[..], bytes[..32]);
    assert_eq!(accumulator.records[0].total_difficulty[..], bytes[32..64]);
    assert_eq!(accumulator.records[2].block_hash[..], bytes[128..160]);
    assert_eq!(accumulator.records[2].total_difficulty[..], bytes[160..]);
}

#[test]
fn reading_gives_back_the_records_that_were_written() {
    let bytes = bytes(64 * 5);
    let mut written: Vec<u8> = vec![];
    for record in EpochAccumulator::from_ssz_bytes(&bytes).unwrap().records {
        written.extend_from_slice(&record.block_hash);
        written.extend_from_slice(&record.total_difficulty);
    }
    assert_eq!(written, bytes);
}

#[test]
fn a_full_epoch_is_the_most_that_is_read() {
    let accumulator = EpochAccumulator::from_ssz_bytes(&bytes(64 * 8192)).unwrap();
    assert_eq!(accumulator.records.len(), 8192);
    assert_eq!(
        EpochAccumulator::from_ssz_bytes(&bytes(64 * 8193)),
        Err(EpochAccError::TooManyRecords { records: 8193 })
    );
    assert_eq!(
        EpochAccumulator::from_ssz_bytes(&bytes(64 * 8193 + 5)),
        Err(EpochAccError::TooManyRecords { records: 8193 })
    );
    assert_eq!(
        EpochAccumulator::from_ssz_bytes(&bytes(64 * 8192 + 5)),
        Err(EpochAccError::InvalidByteLength { len: 5, expected: 64 })
    );
}

#[test]
fn cut_files_are_turned_down() {
    assert_eq!(
        EpochAccumulator::from_ssz_bytes(&bytes(63)),
        Err(EpochAccError::InvalidByteLength { len: 63, expected: 64 })
    );
    assert_eq!(
        EpochAccumulator::from_ssz_bytes(&bytes(130)),
        Err(EpochAccError::InvalidByteLength { len: 2, expected: 64 })
    );
}

#[test]
fn an_empty_file_reads_as_no_records() {
    assert_eq!(
        load_epoch_acc("p".to_string(), Some(vec![])),
        Ok(EpochAccumulator { records: vec![] })
    );
}

#[test]
fn bounded_lists_read_the_same() {
    for len in [0, 1, 63, 64, 65, 128, 640, 641, 64 * 8192, 64 * 8192 + 1, 64 * 8193] {
        let bytes = bytes(len);
        let list = VariableList::<([u8; 32], [u8; 32]), U8192>::from_ssz_bytes(&bytes);
        match EpochAccumulator::from_ssz_bytes(&bytes) {
            Ok(accumulator) => {
                let list = list.unwrap();
                assert_eq!(accumulator.records.len(), list.len());
                for (record, pair) in accumulator.records.iter().zip(list.iter()) {
                    assert_eq!((record.block_hash, record.total_difficulty), *pair);
                }
            }
            Err(error) => {
                let other = list.unwrap_err();
                if let EpochAccError::TooManyRecords { .. } = error {
                    assert_eq!(error.message(), format!("{:?}", other));
                }
            }
        }
    }
}

#[test]
fn missing_files_are_reported() {
    let result = load_epoch_acc("./a/b".to_string(), None);
    assert_eq!(result, Err(EpochAccError::NotFound { path: "./a/b".to_string() }));
    assert_eq!(
        result.unwrap_err().message(),
        format!("Unable to find local epoch acc at path: {:?}", "./a/b")
    );
}

#[test]
fn decoding_errors_read_as_those_of_the_decoder() {
    assert_eq!(
        EpochAccError::InvalidByteLength { len: 5, expected: 64 }.message(),
        format!("{:?}", ssz::DecodeError::InvalidByteLength { len: 5, expected: 64 })
    );
    assert_eq!(
        EpochAccError::TooManyRecords { records: 8193 }.message(),
        "BytesInvalid(\"VariableList of 8193 items exceeds maximum of 8192\")"
    );
}

#[test]
fn undecodable_files_are_reported() {
    assert_eq!(
        load_epoch_acc("p".to_string(), Some(vec![1; 10])),
        Err(EpochAccError::InvalidByteLength { len: 10, expected: 64 })
    );
}
