use postflop_solver::file::{
    load_data_from_std_read, read_file_info, save_data_into_std_write,
    save_data_into_std_write_with_mode, DataType, EncodedData, FileError, FileField, OutputMode,
    MAGIC,
};

fn sample_data() -> EncodedData {
    EncodedData {
        data_type: DataType::Game,
        output_mode: OutputMode::Full,
        estimated_memory_usage: 970,
        body: (0..200u32).map(|i| (i * 7 % 256) as u8).collect(),
    }
}

#[test]
fn save_then_load_uncompressed() {
    let data = sample_data();
    let mut buf = Vec::new();
    assert_eq!(save_data_into_std_write(&data, "Td9d6h", &mut buf, None), Ok(()));
    let (loaded, memo) = load_data_from_std_read::<EncodedData>(&buf, DataType::Game, None).unwrap();
    assert_eq!(memo, "Td9d6h");
    assert_eq!(loaded.body, data.body);
    assert_eq!(loaded.estimated_memory_usage, 970);
    assert_eq!(loaded.output_mode, OutputMode::Full);
    assert_eq!(loaded.data_type, DataType::Game);
}

#[test]
fn save_then_load_compressed() {
    let data = sample_data();
    let mut buf = Vec::new();
    assert_eq!(save_data_into_std_write(&data, "memo", &mut buf, Some(3)), Ok(()));
    let (loaded, memo) = load_data_from_std_read::<EncodedData>(&buf, DataType::Game, None).unwrap();
    assert_eq!(memo, "memo");
    assert_eq!(loaded.body, data.body);
    let info = read_file_info(&buf, buf.len() as u64).unwrap();
    assert_eq!(info.compression_type, 1);
    assert_eq!(info.version, 2);
}

#[test]
fn header_layout() {
    let data = EncodedData {
        data_type: DataType::Bunching,
        output_mode: OutputMode::Display,
        estimated_memory_usage: 5,
        body: vec![9, 8],
    };
    let mut buf = vec![0xaa];
    save_data_into_std_write_with_mode(&data, "ab", &mut buf, None, OutputMode::Display).unwrap();
    // existing bytes are kept; the magic number is a varint: 0xfc then 4 little-endian bytes
    assert_eq!(buf[0], 0xaa);
    assert_eq!(buf[1], 0xfc);
    assert_eq!(u32::from_le_bytes([buf[2], buf[3], buf[4], buf[5]]), MAGIC);
    // version, compression, data type, output mode, memory usage, memo length, memo, body
    assert_eq!(&buf[6..], &[2, 0, 1, 1, 5, 2, b'a', b'b', 9, 8]);
}

#[test]
fn display_mode_is_recorded() {
    let data = sample_data();
    let mut buf = Vec::new();
    save_data_into_std_write_with_mode(&data, "", &mut buf, None, OutputMode::Display).unwrap();
    let info = read_file_info(&buf, 123).unwrap();
    assert!(info.output_mode.is_display());
    assert!(!OutputMode::Full.is_display());
    assert_eq!(info.file_size, 123);
    assert_eq!(info.memo, "");
}

#[test]
fn load_errors() {
    let data = sample_data();
    let mut good = Vec::new();
    save_data_into_std_write(&data, "m", &mut good, None).unwrap();

    // wrong data type
    assert!(matches!(
        load_data_from_std_read::<EncodedData>(&good, DataType::Bunching, None),
        Err(FileError::InvalidDataType)
    ));
    // memory limit
    assert!(matches!(
        load_data_from_std_read::<EncodedData>(&good, DataType::Game, Some(100)),
        Err(FileError::MemoryLimitExceeded(970, 100))
    ));
    // empty input
    assert!(matches!(
        load_data_from_std_read::<EncodedData>(&[], DataType::Game, None),
        Err(FileError::ReadFailed(FileField::MagicNumber))
    ));
    // wrong magic
    assert!(matches!(
        load_data_from_std_read::<EncodedData>(&[5, 2, 0, 0, 0], DataType::Game, None),
        Err(FileError::InvalidMagic)
    ));
    // unsupported version
    let mut bad = good.clone();
    bad[5] = 9;
    assert!(matches!(
        load_data_from_std_read::<EncodedData>(&bad, DataType::Game, None),
        Err(FileError::UnsupportedVersion(9))
    ));
    // bad compression type
    let mut bad = good.clone();
    bad[6] = 4;
    assert!(matches!(
        load_data_from_std_read::<EncodedData>(&bad, DataType::Game, None),
        Err(FileError::InvalidCompressionType)
    ));
    // bad output mode
    let mut bad = good.clone();
    bad[8] = 7;
    assert!(matches!(
        load_data_from_std_read::<EncodedData>(&bad, DataType::Game, None),
        Err(FileError::InvalidOutputMode(7))
    ));
    // truncated after the magic number
    assert!(matches!(
        load_data_from_std_read::<EncodedData>(&good[..5], DataType::Game, None),
        Err(FileError::ReadFailed(FileField::VersionNumber))
    ));
    // compressed flag with a body that is not a zstd frame
    let mut bad = good.clone();
    bad[6] = 1;
    assert!(matches!(
        load_data_from_std_read::<EncodedData>(&bad, DataType::Game, None),
        Err(FileError::DecompressionFailed)
    ));
}
