use qrcode::error::QrError;
use qrcode::input::ErrorLevel;
use qrcode::standard_qr_code::qr_struct::ErrorBlockInfo;
use qrcode::standard_qr_code::utils::data_bytes_of;
use qrcode::standard_qr_code::utils::get_verison_info;
use qrcode::standard_qr_code::version_constants::alignment_pattern_data;
use qrcode::standard_qr_code::version_constants::codewords;
use qrcode::standard_qr_code::version_constants::error_blocks_of;
use qrcode::standard_qr_code::version_constants::get_error_block_info;
use qrcode::standard_qr_code::version_constants::information_sequences;
use qrcode::standard_qr_code::version_constants::version_info;

#[test]
fn sanitycheck_version_information() {
    let info: Vec<(u8, u16, Vec<(ErrorLevel, Vec<ErrorBlockInfo>)>)> = get_error_block_info();
    assert_eq!(info.len(), 40);
    let mut version: i16 = 0;
    let mut size: u16 = 0;
    for loop_version in info.clone() {
        // check that the numbers go up by one
        if loop_version.0 as i16 != version + 1 {
            panic!();
        } else {
            version = loop_version.0 as i16;
        }
        // check that size goes up
        if loop_version.1 <= size {
            println!(
                "last version number was {} the current one is {}",
                size, loop_version.1
            );
            panic!();
        } else {
            size = loop_version.1
        }
        // make sure that the blocks summed up have the size of the version
        for memory_case in loop_version.2.clone() {
            let mut current_memory: u16 = 0;
            for block in memory_case.1.iter() {
                let total_length = block.num_data_bytes + block.num_error_bytes;
                current_memory += block.num_block as u16 * total_length as u16;
                assert_eq!(total_length, block.num_data_bytes + block.num_error_bytes);
            }
            if current_memory != loop_version.1 {
                println!(
                    "version {} has a size of {} bytes but the {:?} block takes up {} bytes",
                    version, loop_version.1, memory_case.0, current_memory
                );
                panic!();
            }
            // assert that there can't be more than two error blocks per version
            assert!(memory_case.1.len() <= 2 && memory_case.1.len() > 0);
        }
    }
}

#[test]
// if there are more than three rows/columns of alignment patterns
// they should be spaced out equally from one another
fn sanity_check_alignment_pattern() {
    for version in 1..=40 {
        println!("version: {}", version);
        let version_data: (u8, Vec<u8>) = alignment_pattern_data(version);
        if version_data.1.len() >= 3 {
            if version_data.1.len() == 3 {
                let difference = version_data.1[1] - version_data.1[0];
                for index in 0..version_data.1.len() - 1 {
                    assert_eq!(
                        difference,
                        version_data.1[index + 1] - version_data.1[index]
                    );
                }
            } else {
                let difference = version_data.1[2] - version_data.1[1];
                for index in 1..version_data.1.len() - 1 {
                    assert_eq!(
                        difference,
                        version_data.1[index + 1] - version_data.1[index]
                    );
                }
            }
        }
    }
}

#[test]
fn version_one_level_l() {
    let info = get_error_block_info();
    let (version, total, levels) = info[0].clone();
    assert_eq!(version, 1);
    assert_eq!(total, 26);
    let (level, blocks) = levels[0].clone();
    assert_eq!(level, ErrorLevel::L);
    assert_eq!(blocks.len(), 1);
    assert_eq!(blocks[0].num_block, 1);
    assert_eq!(blocks[0].num_data_bytes, 19);
    assert_eq!(blocks[0].num_error_bytes, 7);
    assert_eq!(blocks[0], ErrorBlockInfo::new(1, 26, 19));
    assert_eq!(error_blocks_of(1, ErrorLevel::L), vec![ErrorBlockInfo::new(1, 26, 19)]);
}

#[test]
fn table_entries() {
    let info = get_error_block_info();
    // the levels stand in the order L, M, Q, H
    for entry in info.iter() {
        let levels: Vec<ErrorLevel> = entry.2.iter().map(|level| level.0).collect();
        assert_eq!(levels, vec![ErrorLevel::L, ErrorLevel::M, ErrorLevel::Q, ErrorLevel::H]);
        assert_eq!(codewords(entry.0), entry.1);
        for (level, blocks) in entry.2.iter() {
            assert_eq!(&error_blocks_of(entry.0, *level), blocks);
        }
    }
    assert_eq!(
        error_blocks_of(5, ErrorLevel::Q),
        vec![ErrorBlockInfo::new(2, 33, 15), ErrorBlockInfo::new(2, 34, 16)]
    );
    assert_eq!(
        error_blocks_of(40, ErrorLevel::H),
        vec![ErrorBlockInfo::new(20, 45, 15), ErrorBlockInfo::new(61, 46, 16)]
    );
    assert_eq!(codewords(40), 3706);
    assert_eq!(data_bytes_of(&error_blocks_of(40, ErrorLevel::L)), 2956);
    assert_eq!(data_bytes_of(&error_blocks_of(5, ErrorLevel::Q)), 62);
}

#[test]
fn alignment_centres() {
    assert_eq!(alignment_pattern_data(1), (0, vec![]));
    assert_eq!(alignment_pattern_data(2), (1, vec![6, 18]));
    assert_eq!(alignment_pattern_data(7), (6, vec![6, 22, 38]));
    assert_eq!(alignment_pattern_data(14), (13, vec![6, 26, 46, 66]));
    assert_eq!(alignment_pattern_data(36), (46, vec![6, 24, 50, 76, 102, 128, 154]));
    assert_eq!(alignment_pattern_data(40), (46, vec![6, 30, 58, 86, 114, 142, 170]));
    for version in 2..=40u8 {
        let (patterns, centres) = alignment_pattern_data(version);
        assert_eq!(centres.len(), version as usize / 7 + 2);
        assert_eq!(patterns as usize, centres.len() * centres.len() - 3);
        assert_eq!(centres[0], 6);
        assert_eq!(*centres.last().unwrap() as usize, 4 * version as usize + 10);
    }
}

#[test]
fn bit_sequences() {
    assert_eq!(version_info(7), 0x07C94);
    assert_eq!(version_info(22), 0x168C9);
    assert_eq!(version_info(40), 0x28C69);
    for version in 7..=40u8 {
        // the six highest bits of the eighteen are the version
        assert_eq!(version_info(version) >> 12, version as u32);
    }
    assert_eq!(information_sequences(0), 0x5412);
    assert_eq!(information_sequences(8), 0x77C4);
    assert_eq!(information_sequences(31), 0x2BED);
    for value in 0..32u8 {
        // the five highest bits of the fifteen are the value under the fixed mask
        assert_eq!((information_sequences(value) >> 10) as u8, value ^ 0b10101);
    }
}

#[test]
fn version_for_a_text_length() {
    assert_eq!(get_verison_info(0, ErrorLevel::L).unwrap().0, 1);
    assert_eq!(get_verison_info(5, ErrorLevel::L), Ok((1, vec![ErrorBlockInfo::new(1, 26, 19)])));
    assert_eq!(get_verison_info(17, ErrorLevel::L).unwrap().0, 1);
    assert_eq!(get_verison_info(18, ErrorLevel::L).unwrap().0, 2);
    assert_eq!(get_verison_info(17, ErrorLevel::M).unwrap().0, 2);
    assert_eq!(get_verison_info(7, ErrorLevel::H).unwrap().0, 1);
    assert_eq!(get_verison_info(8, ErrorLevel::H).unwrap().0, 2);
    // from version 10 on the character count takes two bytes
    assert_eq!(get_verison_info(230, ErrorLevel::L).unwrap().0, 9);
    assert_eq!(get_verison_info(231, ErrorLevel::L).unwrap().0, 10);
    assert_eq!(get_verison_info(271, ErrorLevel::L).unwrap().0, 10);
    assert_eq!(get_verison_info(272, ErrorLevel::L).unwrap().0, 11);
    assert_eq!(get_verison_info(2953, ErrorLevel::L).unwrap().0, 40);
    assert_eq!(get_verison_info(2954, ErrorLevel::L), Err(QrError::TextTooLong));
    assert_eq!(get_verison_info(1273, ErrorLevel::H).unwrap().0, 40);
    assert_eq!(get_verison_info(1274, ErrorLevel::H), Err(QrError::TextTooLong));
    assert_eq!(get_verison_info(usize::MAX, ErrorLevel::M), Err(QrError::TextTooLong));
}

#[test]
fn version_does_not_fall_with_the_length() {
    for level in [ErrorLevel::L, ErrorLevel::M, ErrorLevel::Q, ErrorLevel::H] {
        let mut last = 1;
        for length in 0..3000usize {
            match get_verison_info(length, level) {
                Ok((version, blocks)) => {
                    assert!(version >= last);
                    assert!(data_bytes_of(&blocks) >= length + if version >= 10 { 3 } else { 2 });
                    last = version;
                }
                Err(error) => {
                    assert_eq!(error, QrError::TextTooLong);
                    last = 41;
                }
            }
        }
        assert_eq!(last, 41);
    }
}
