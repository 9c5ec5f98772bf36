//! The `.flop` file format. A file is a header followed by the encoded data:
//!  - magic number (`u32`, variable-length): 0x09f15790
//!  - version number (1 byte): 2 (files of version 1 have no output-mode byte)
//!  - compression type (1 byte): 0 (none), 1 (zstd)
//!  - data type (1 byte): 0 (game), 1 (bunching)
//!  - output mode (1 byte): 0 (full), 1 (display)
//!  - estimated memory usage (`u64`, variable-length)
//!  - memo string (length-prefixed UTF-8)
//!  - the data, zstd-compressed when the compression type is 1
use vstd::prelude::*;
use vstd::slice::slice_subrange;
use vstd::string::StringSliceAdditionalSpecFns;
use vstd::utf8::{decode_utf8, encode_utf8, valid_utf8};
use crate::codec::{
    decode_string, decode_u32, decode_u64, decode_u8, encode_str, encode_u32, encode_u64,
    encode_u8, lemma_varint_len, lemma_varint_roundtrip, string_bytes, varint_bytes,
    varint_parse_u32, varint_parse_u64,
};
use crate::compress::{zstd_compress, zstd_decompress, zstd_frame};

verus! {

/// Magic number at the start of every file.
pub const MAGIC: u32 = 0x09f15790;

/// Version written by this library; version 1 is still read.
pub const VERSION: u8 = 2;

/// Output mode for saving game data.
#[derive(Clone, Copy, Debug, PartialEq, Eq)]
pub enum OutputMode {
    /// Full output with all data (strategies and regrets); needed to resume iterating.
    Full,
    /// Display-only output (strategies only, no regrets), about half the size.
    Display,
}

impl Default for OutputMode {
    fn default() -> (r: Self)
        ensures
            r == OutputMode::Full,
    {
        OutputMode::Full
    }
}

impl OutputMode {
    /// Returns true if this is display mode (regrets are omitted).
    pub fn is_display(&self) -> (r: bool)
        ensures
            r == (*self == OutputMode::Display),
    {
        match self {
            OutputMode::Full => false,
            OutputMode::Display => true,
        }
    }

    /// Byte written for the mode.
    pub open spec fn spec_byte(self) -> u8 {
        match self {
            OutputMode::Full => 0,
            OutputMode::Display => 1,
        }
    }

    /// Byte written for the mode.
    pub fn byte(&self) -> (r: u8)
        ensures
            r == self.spec_byte(),
    {
        match self {
            OutputMode::Full => 0,
            OutputMode::Display => 1,
        }
    }
}

/// Kind of data held by a file.
#[derive(Clone, Copy, Debug, PartialEq, Eq)]
pub enum DataType {
    Game,
    Bunching,
}

impl DataType {
    /// Byte written for the data type.
    pub open spec fn spec_byte(self) -> u8 {
        match self {
            DataType::Game => 0,
            DataType::Bunching => 1,
        }
    }

    /// Byte written for the data type.
    pub fn byte(&self) -> (r: u8)
        ensures
            r == self.spec_byte(),
    {
        match self {
            DataType::Game => 0,
            DataType::Bunching => 1,
        }
    }
}

/// File metadata, read without loading the data.
pub struct FileInfo {
    pub version: u8,
    pub compression_type: u8,
    pub data_type: u8,
    pub output_mode: OutputMode,
    pub estimated_memory_usage: u64,
    pub memo: String,
    pub file_size: u64,
}

/// Timing breakdown for file loading, in milliseconds.
#[derive(Clone, Copy, Debug, Default)]
pub struct LoadTimings {
    pub header_ms: u64,
    pub decompression_ms: u64,
    pub deserialization_ms: u64,
    pub init_ms: u64,
    pub total_ms: u64,
}

/// Part of a file that could not be read.
#[derive(Clone, Copy, Debug, PartialEq, Eq)]
pub enum FileField {
    MagicNumber,
    VersionNumber,
    CompressionType,
    DataType,
    OutputMode,
    MemoryUsage,
    Memo,
    Data,
}

/// Why saving or loading failed.
#[derive(Clone, Copy, Debug, PartialEq, Eq)]
pub enum FileError {
    /// The data is not ready to be saved.
    NotReady,
    /// The compressor failed (zstd reported an error; compressing a buffer in memory
    /// does not, so saving never returns this).
    CompressionFailed,
    /// The bytes ran out or were malformed while reading this part.
    ReadFailed(FileField),
    /// The magic number is wrong.
    InvalidMagic,
    /// The version is neither 1 nor 2.
    UnsupportedVersion(u8),
    /// The compression type is neither 0 nor 1.
    InvalidCompressionType,
    /// The data type is not the one requested.
    InvalidDataType,
    /// The output-mode byte is neither 0 nor 1.
    InvalidOutputMode(u8),
    /// The estimated memory usage (first) exceeds the limit (second).
    MemoryLimitExceeded(u64, u64),
    /// The compressed data could not be decompressed.
    DecompressionFailed,
}

/// Data that can be saved into a file and loaded from one.
pub trait FileData: Sized {
    spec fn spec_data_type(&self) -> DataType;

    spec fn spec_ready(&self) -> bool;

    spec fn spec_memory_usage(&self) -> u64;

    spec fn spec_body(&self, mode: OutputMode) -> Seq<u8>;

    /// Kind of the data.
    fn data_type(&self) -> (r: DataType)
        ensures
            r == self.spec_data_type(),
    ;

    /// Whether the data may be saved.
    fn is_ready_to_save(&self) -> (r: bool)
        ensures
            r == self.spec_ready(),
    ;

    /// Memory the data needs once loaded.
    fn estimated_memory_usage(&self) -> (r: u64)
        ensures
            r == self.spec_memory_usage(),
    ;

    /// Encoded data for the given output mode.
    fn encode_body(&self, mode: OutputMode) -> (r: Vec<u8>)
        ensures
            r@ == self.spec_body(mode),
    ;

    /// The data bytes `body`, read from a file whose header gives the data type, output
    /// mode and memory estimate, decode to something.
    spec fn spec_decodable(data_type: DataType, mode: OutputMode, memory_usage: u64, body: Seq<
        u8,
    >) -> bool;

    /// The data bytes `body`, read with that header, decode to `d`.
    spec fn spec_decodes_to(
        data_type: DataType,
        mode: OutputMode,
        memory_usage: u64,
        body: Seq<u8>,
        d: Self,
    ) -> bool;

    /// Decodes the data bytes read with the given header; `None` when they do not decode.
    fn decode_body(data_type: DataType, mode: OutputMode, memory_usage: u64, body: Vec<u8>) -> (r:
        Option<Self>)
        ensures
            r is Some <==> Self::spec_decodable(data_type, mode, memory_usage, body@),
            r matches Some(d) ==> Self::spec_decodes_to(data_type, mode, memory_usage, body@, d),
    ;
}

/// Data already encoded by its owner, as stored in and loaded from a file.
pub struct EncodedData {
    pub data_type: DataType,
    pub output_mode: OutputMode,
    pub estimated_memory_usage: u64,
    pub body: Vec<u8>,
}

impl FileData for EncodedData {
    open spec fn spec_data_type(&self) -> DataType {
        self.data_type
    }

    open spec fn spec_ready(&self) -> bool {
        true
    }

    open spec fn spec_memory_usage(&self) -> u64 {
        self.estimated_memory_usage
    }

    open spec fn spec_body(&self, mode: OutputMode) -> Seq<u8> {
        self.body@
    }

    fn data_type(&self) -> (r: DataType) {
        self.data_type
    }

    fn is_ready_to_save(&self) -> (r: bool) {
        true
    }

    fn estimated_memory_usage(&self) -> (r: u64) {
        self.estimated_memory_usage
    }

    fn encode_body(&self, mode: OutputMode) -> (r: Vec<u8>) {
        vstd::slice::slice_to_vec(self.body.as_slice())
    }

    open spec fn spec_decodable(data_type: DataType, mode: OutputMode, memory_usage: u64, body: Seq<
        u8,
    >) -> bool {
        true
    }

    open spec fn spec_decodes_to(
        data_type: DataType,
        mode: OutputMode,
        memory_usage: u64,
        body: Seq<u8>,
        d: Self,
    ) -> bool {
        &&& d.data_type == data_type
        &&& d.output_mode == mode
        &&& d.estimated_memory_usage == memory_usage
        &&& d.body@ == body
    }

    fn decode_body(data_type: DataType, mode: OutputMode, memory_usage: u64, body: Vec<u8>) -> (r:
        Option<Self>) {
        Some(EncodedData { data_type, output_mode: mode, estimated_memory_usage: memory_usage, body })
    }
}

/// Header bytes of a file written by this library.
pub open spec fn header_bytes(
    compressed: bool,
    data_type: DataType,
    mode: OutputMode,
    memory_usage: u64,
    memo: Seq<u8>,
) -> Seq<u8> {
    varint_bytes(MAGIC as u64) + seq![VERSION, if compressed { 1u8 } else { 0u8 }, data_type.spec_byte(), mode.spec_byte()]
        + varint_bytes(memory_usage) + string_bytes(memo)
}

fn append_encoded(out: &mut Vec<u8>, bytes: Result<Vec<u8>, bincode::error::EncodeError>)
    ensures
        bytes matches Ok(b) ==> final(out)@ == old(out)@ + b@,
        bytes is Err ==> final(out)@ == old(out)@,
{
    match bytes {
        Ok(b) => {
            let mut b = b;
            out.append(&mut b);
        },
        Err(_) => {},
    }
}

/// Saves data into a byte buffer in full output mode (see
/// [`save_data_into_std_write_with_mode`]).
pub fn save_data_into_std_write<T: FileData>(
    data: &T,
    memo: &str,
    writer: &mut Vec<u8>,
    compression_level: Option<i32>,
) -> (r: Result<(), FileError>)
    ensures
        save_outcome(
            data.spec_ready(),
            data.spec_data_type(),
            data.spec_memory_usage(),
            data.spec_body(OutputMode::Full),
            memo.spec_bytes(),
            compression_level,
            OutputMode::Full,
            old(writer)@,
            final(writer)@,
            r,
        ),
{
    save_data_into_std_write_with_mode(data, memo, writer, compression_level, OutputMode::Full)
}

/// What saving does: data that is not ready is refused and nothing is written;
/// otherwise the header and the data (compressed at the given level, if any) are
/// appended.
pub open spec fn save_outcome(
    ready: bool,
    data_type: DataType,
    memory_usage: u64,
    body: Seq<u8>,
    memo: Seq<u8>,
    compression_level: Option<i32>,
    mode: OutputMode,
    before: Seq<u8>,
    after: Seq<u8>,
    r: Result<(), FileError>,
) -> bool {
    if !ready {
        r == Err::<(), FileError>(FileError::NotReady) && after == before
    } else {
        match compression_level {
            None => r is Ok && after == before + header_bytes(false, data_type, mode, memory_usage, memo)
                + body,
            Some(level) => r is Ok && after == before + header_bytes(
                true,
                data_type,
                mode,
                memory_usage,
                memo,
            ) + zstd_frame(body, level as int),
        }
    }
}

/// Saves data into a byte buffer with the given output mode: appends the header and the
/// encoded data, compressed with zstd when a level is given.
pub fn save_data_into_std_write_with_mode<T: FileData>(
    data: &T,
    memo: &str,
    writer: &mut Vec<u8>,
    compression_level: Option<i32>,
    output_mode: OutputMode,
) -> (r: Result<(), FileError>)
    ensures
        save_outcome(
            data.spec_ready(),
            data.spec_data_type(),
            data.spec_memory_usage(),
            data.spec_body(output_mode),
            memo.spec_bytes(),
            compression_level,
            output_mode,
            old(writer)@,
            final(writer)@,
            r,
        ),
{
    if !data.is_ready_to_save() {
        return Err(FileError::NotReady);
    }
    let body = data.encode_body(output_mode);
    let payload = match compression_level {
        None => body,
        Some(level) => match zstd_compress(body.as_slice(), level) {
            Some(compressed) => compressed,
            None => {
                return Err(FileError::CompressionFailed);
            },
        },
    };

    let mut out: Vec<u8> = Vec::new();
    append_encoded(&mut out, encode_u32(MAGIC));
    append_encoded(&mut out, encode_u8(VERSION));
    let compression_type: u8 = if compression_level.is_some() { 1 } else { 0 };
    append_encoded(&mut out, encode_u8(compression_type));
    append_encoded(&mut out, encode_u8(data.data_type().byte()));
    append_encoded(&mut out, encode_u8(output_mode.byte()));
    append_encoded(&mut out, encode_u64(data.estimated_memory_usage()));
    append_encoded(&mut out, encode_str(memo));
    let ghost header = out@;
    proof {
        let compressed = compression_level is Some;
        assert(header =~= header_bytes(
            compressed,
            data.spec_data_type(),
            output_mode,
            data.spec_memory_usage(),
            memo.spec_bytes(),
        ));
    }
    let ghost payload_bytes = payload@;
    let mut payload = payload;
    out.append(&mut payload);
    writer.append(&mut out);
    assert(writer@ =~= old(writer)@ + header + payload_bytes);
    Ok(())
}


/// Header as read: (version, compression type, data-type byte, output mode, estimated
/// memory usage, memo, header length in bytes).
pub type HeaderView = (u8, u8, u8, OutputMode, u64, Seq<char>, nat);

/// Reads a header from the front of `b`, checking in order: the magic number, the version
/// (1 or 2), the compression type (0 or 1), the data type (when one is expected), the
/// output mode (version 2 only; version 1 files are full), the estimated memory usage
/// (against the limit, when there is one) and the memo (valid UTF-8).
pub open spec fn parse_header(b: Seq<u8>, expected: Option<u8>, max_memory_usage: Option<u64>) -> Result<HeaderView, FileError> {
    match varint_parse_u32(b) {
        None => Err(FileError::ReadFailed(FileField::MagicNumber)),
        Some((magic, n0)) => {
            let p0 = n0 as int;
            if magic != MAGIC {
                Err(FileError::InvalidMagic)
            } else if b.len() <= p0 {
                Err(FileError::ReadFailed(FileField::VersionNumber))
            } else if b[p0] != 1 && b[p0] != VERSION {
                Err(FileError::UnsupportedVersion(b[p0]))
            } else if b.len() <= p0 + 1 {
                Err(FileError::ReadFailed(FileField::CompressionType))
            } else if b[p0 + 1] > 1 {
                Err(FileError::InvalidCompressionType)
            } else if b.len() <= p0 + 2 {
                Err(FileError::ReadFailed(FileField::DataType))
            } else if expected is Some && b[p0 + 2] != expected->0 {
                Err(FileError::InvalidDataType)
            } else if b[p0] >= 2 && b.len() <= p0 + 3 {
                Err(FileError::ReadFailed(FileField::OutputMode))
            } else if b[p0] >= 2 && b[p0 + 3] > 1 {
                Err(FileError::InvalidOutputMode(b[p0 + 3]))
            } else {
                let mode = if b[p0] >= 2 && b[p0 + 3] == 1 {
                    OutputMode::Display
                } else {
                    OutputMode::Full
                };
                let p1: int = if b[p0] >= 2 { p0 + 4 } else { p0 + 3 };
                match varint_parse_u64(b.subrange(p1, b.len() as int)) {
                    None => Err(FileError::ReadFailed(FileField::MemoryUsage)),
                    Some((mem, m)) => {
                        if max_memory_usage is Some && mem > max_memory_usage->0 {
                            Err(FileError::MemoryLimitExceeded(mem, max_memory_usage->0))
                        } else {
                            let p2 = p1 + m;
                            match varint_parse_u64(b.subrange(p2, b.len() as int)) {
                                None => Err(FileError::ReadFailed(FileField::Memo)),
                                Some((len, q)) => {
                                    let start = p2 + q;
                                    if start + len > b.len() || !valid_utf8(
                                        b.subrange(start, start + len),
                                    ) {
                                        Err(FileError::ReadFailed(FileField::Memo))
                                    } else {
                                        Ok(
                                            (
                                                b[p0],
                                                b[p0 + 1],
                                                b[p0 + 2],
                                                mode,
                                                mem,
                                                decode_utf8(b.subrange(start, start + len)),
                                                (start + len) as nat,
                                            ),
                                        )
                                    }
                                },
                            }
                        }
                    },
                }
            }
        },
    }
}

/// Header read by [`read_header`].
pub struct FileHeader {
    pub version: u8,
    pub compression_type: u8,
    pub data_type: u8,
    pub output_mode: OutputMode,
    pub estimated_memory_usage: u64,
    pub memo: String,
}

/// Reads the header at the front of `bytes` (see [`parse_header`]); returns it with its
/// length in bytes.
pub fn read_header(bytes: &[u8], expected: Option<u8>, max_memory_usage: Option<u64>) -> (r: Result<(FileHeader, usize), FileError>)
    ensures
        match parse_header(bytes@, expected, max_memory_usage) {
            Err(e) => r matches Err(e2) && e2 == e,
            Ok(h) => r matches Ok((fh, n)) && fh.version == h.0 && fh.compression_type == h.1
                && fh.data_type == h.2 && fh.output_mode == h.3 && fh.estimated_memory_usage
                == h.4 && fh.memo@ == h.5 && n == h.6,
        },
{
    let len = bytes.len();
    let (magic, p0) = match decode_u32(bytes) {
        Ok(v) => v,
        Err(_) => {
            return Err(FileError::ReadFailed(FileField::MagicNumber));
        },
    };
    if magic != MAGIC {
        return Err(FileError::InvalidMagic);
    }
    // version, compression type, data type and output mode are single bytes
    let version = match decode_u8(slice_subrange(bytes, p0, len)) {
        Ok((v, _)) => v,
        Err(_) => {
            return Err(FileError::ReadFailed(FileField::VersionNumber));
        },
    };
    if version != 1 && version != VERSION {
        return Err(FileError::UnsupportedVersion(version));
    }
    let compression_type = match decode_u8(slice_subrange(bytes, p0 + 1, len)) {
        Ok((v, _)) => v,
        Err(_) => {
            return Err(FileError::ReadFailed(FileField::CompressionType));
        },
    };
    if compression_type > 1 {
        return Err(FileError::InvalidCompressionType);
    }
    let data_type = match decode_u8(slice_subrange(bytes, p0 + 2, len)) {
        Ok((v, _)) => v,
        Err(_) => {
            return Err(FileError::ReadFailed(FileField::DataType));
        },
    };
    match expected {
        Some(t) => {
            if data_type != t {
                return Err(FileError::InvalidDataType);
            }
        },
        None => {},
    }
    let mut p1 = p0 + 3;
    let output_mode = if version >= 2 {
        let mode_byte = match decode_u8(slice_subrange(bytes, p0 + 3, len)) {
            Ok((v, _)) => v,
            Err(_) => {
                return Err(FileError::ReadFailed(FileField::OutputMode));
            },
        };
        p1 = p0 + 4;
        match mode_byte {
            0 => OutputMode::Full,
            1 => OutputMode::Display,
            _ => {
                return Err(FileError::InvalidOutputMode(mode_byte));
            },
        }
    } else {
        OutputMode::Full
    };
    let (estimated_memory_usage, m) = match decode_u64(slice_subrange(bytes, p1, len)) {
        Ok(v) => v,
        Err(_) => {
            return Err(FileError::ReadFailed(FileField::MemoryUsage));
        },
    };
    match max_memory_usage {
        Some(limit) => {
            if estimated_memory_usage > limit {
                return Err(FileError::MemoryLimitExceeded(estimated_memory_usage, limit));
            }
        },
        None => {},
    }
    let p2 = p1 + m;
    let memo_bytes = slice_subrange(bytes, p2, len);
    // the declared memo length must fit in what is left
    let (memo_len, q) = match decode_u64(memo_bytes) {
        Ok(v) => v,
        Err(_) => {
            return Err(FileError::ReadFailed(FileField::Memo));
        },
    };
    if memo_len > (len - p2 - q) as u64 {
        return Err(FileError::ReadFailed(FileField::Memo));
    }
    proof {
        assert(memo_bytes@.subrange(q as int, q + memo_len) =~= bytes@.subrange(
            p2 + q,
            p2 + q + memo_len,
        ));
    }
    let (memo, n) = match decode_string(memo_bytes) {
        Ok(v) => v,
        Err(_) => {
            return Err(FileError::ReadFailed(FileField::Memo));
        },
    };
    Ok((
        FileHeader { version, compression_type, data_type, output_mode, estimated_memory_usage, memo },
        p2 + n,
    ))
}


/// What loading returns: the header's error; otherwise the data bytes (everything after
/// the header, decompressed when the header says so) decoded with the header's data
/// type, output mode and memory estimate, with the header's memo, or
/// [`FileError::ReadFailed`] of the data when they do not decode. Compressed bytes that
/// are a frame made from some data decompress to that data; on other compressed bytes
/// decompression may fail.
pub open spec fn load_outcome<T: FileData>(
    bytes: Seq<u8>,
    data_type: DataType,
    max_memory_usage: Option<u64>,
    r: Result<(T, String), FileError>,
) -> bool {
    match parse_header(bytes, Some(data_type.spec_byte()), max_memory_usage) {
        Err(e) => r matches Err(e2) && e2 == e,
        Ok(h) => {
            let rest = bytes.subrange(h.6 as int, bytes.len() as int);
            &&& r matches Ok((d, memo)) ==> {
                &&& memo@ == h.5
                &&& h.1 == 0 ==> T::spec_decodes_to(data_type, h.3, h.4, rest, d)
                &&& h.1 == 1 ==> forall|x: Seq<u8>, level: int|
                    rest == #[trigger] zstd_frame(x, level) ==> T::spec_decodes_to(
                        data_type,
                        h.3,
                        h.4,
                        x,
                        d,
                    )
            }
            &&& r matches Err(e) ==> e == FileError::ReadFailed(FileField::Data) || {
                &&& h.1 == 1
                &&& e == FileError::DecompressionFailed
                &&& forall|x: Seq<u8>, level: int| #[trigger] zstd_frame(x, level) != rest
            }
            &&& h.1 == 0 ==> (r is Ok <==> T::spec_decodable(data_type, h.3, h.4, rest))
            &&& h.1 == 1 ==> forall|x: Seq<u8>, level: int|
                #[trigger] zstd_frame(x, level) == rest ==> (r is Ok <==> T::spec_decodable(
                    data_type,
                    h.3,
                    h.4,
                    x,
                ))
        },
    }
}

/// Loads data of the given type from the bytes of a file: reads and checks the header
/// (see [`parse_header`]), then takes the data that follows, decompressing it when the
/// header says it is compressed, and decodes it. Returns the data and the memo.
pub fn load_data_from_std_read<T: FileData>(
    reader: &[u8],
    data_type: DataType,
    max_memory_usage: Option<u64>,
) -> (r: Result<(T, String), FileError>)
    ensures
        load_outcome(reader@, data_type, max_memory_usage, r),
{
    let (header, n) = match read_header(reader, Some(data_type.byte()), max_memory_usage) {
        Ok(v) => v,
        Err(e) => {
            return Err(e);
        },
    };
    let ghost h = parse_header(reader@, Some(data_type.spec_byte()), max_memory_usage)->Ok_0;
    let rest = slice_subrange(reader, n, reader.len());
    let body = if header.compression_type == 0 {
        vstd::slice::slice_to_vec(rest)
    } else {
        match zstd_decompress(rest) {
            Some(v) => v,
            None => {
                return Err(FileError::DecompressionFailed);
            },
        }
    };
    match T::decode_body(data_type, header.output_mode, header.estimated_memory_usage, body) {
        Some(data) => Ok((data, header.memo)),
        None => Err(FileError::ReadFailed(FileField::Data)),
    }
}

/// Reads the header of a file of `file_size` bytes whose contents start with `bytes`,
/// without checking the data type or a memory limit.
pub fn read_file_info(bytes: &[u8], file_size: u64) -> (r: Result<FileInfo, FileError>)
    ensures
        match parse_header(bytes@, None, None) {
            Err(e) => r matches Err(e2) && e2 == e,
            Ok(h) => r matches Ok(info) && info.version == h.0 && info.compression_type == h.1
                && info.data_type == h.2 && info.output_mode == h.3
                && info.estimated_memory_usage == h.4 && info.memo@ == h.5 && info.file_size
                == file_size,
        },
{
    let (header, _) = match read_header(bytes, None, None) {
        Ok(v) => v,
        Err(e) => {
            return Err(e);
        },
    };
    Ok(FileInfo {
        version: header.version,
        compression_type: header.compression_type,
        data_type: header.data_type,
        output_mode: header.output_mode,
        estimated_memory_usage: header.estimated_memory_usage,
        memo: header.memo,
        file_size,
    })
}


/// A header written by this library reads back as written (version 2, the compression
/// flag, data type, output mode, memory estimate and memo, and the header's length),
/// whatever follows it, when the expected data type is the written one and the memory
/// estimate is within the limit, if any.
#[verifier::rlimit(50)]
pub proof fn lemma_header_roundtrip(
    compressed: bool,
    data_type: DataType,
    mode: OutputMode,
    memory_usage: u64,
    memo: Seq<char>,
    rest: Seq<u8>,
    max_memory_usage: Option<u64>,
)
    requires
        encode_utf8(memo).len() <= u64::MAX,
        max_memory_usage matches Some(limit) ==> memory_usage <= limit,
    ensures
        ({
            let header = header_bytes(compressed, data_type, mode, memory_usage, encode_utf8(memo));
            parse_header(header + rest, Some(data_type.spec_byte()), max_memory_usage) == Ok::<
                HeaderView,
                FileError,
            >(
                (
                    VERSION,
                    if compressed { 1u8 } else { 0u8 },
                    data_type.spec_byte(),
                    mode,
                    memory_usage,
                    memo,
                    header.len(),
                ),
            )
        }),
{
    let utf8 = encode_utf8(memo);
    let header = header_bytes(compressed, data_type, mode, memory_usage, utf8);
    let b = header + rest;
    let ct: u8 = if compressed { 1u8 } else { 0u8 };
    let magic = varint_bytes(MAGIC as u64);
    let fixed = seq![VERSION, ct, data_type.spec_byte(), mode.spec_byte()];
    let mem = varint_bytes(memory_usage);
    let len = varint_bytes(utf8.len() as u64);
    let tail = len + utf8 + rest;
    lemma_varint_len(MAGIC as u64);
    lemma_varint_len(memory_usage);
    lemma_varint_len(utf8.len() as u64);
    assert(magic.len() == 5);
    assert(b =~= magic + (fixed + (mem + tail))) by {
        assert(header =~= magic + fixed + mem + (len + utf8));
    }
    assert(varint_parse_u32(b) == Some((MAGIC, 5nat))) by {
        lemma_varint_roundtrip(MAGIC as u64, fixed + (mem + tail));
    }
    assert(b[5] == VERSION && b[6] == ct && b[7] == data_type.spec_byte() && b[8] == mode.spec_byte());
    let after_fixed = b.subrange(9, b.len() as int);
    assert(after_fixed =~= mem + tail);
    lemma_varint_roundtrip(memory_usage, tail);
    let p2: int = 9 + mem.len() as int;
    assert(b.subrange(p2, b.len() as int) =~= len + (utf8 + rest));
    lemma_varint_roundtrip(utf8.len() as u64, utf8 + rest);
    let start: int = p2 + len.len() as int;
    assert(b.subrange(start, start + utf8.len()) =~= utf8);
    vstd::utf8::encode_utf8_valid_utf8(memo);
    vstd::utf8::encode_utf8_decode_utf8(memo);
    assert(header.len() == start + utf8.len());
}

/// Header bytes of a legacy version-1 file: no output-mode byte.
pub open spec fn header_bytes_v1(
    compressed: bool,
    data_type: DataType,
    memory_usage: u64,
    memo: Seq<u8>,
) -> Seq<u8> {
    varint_bytes(MAGIC as u64) + seq![1u8, if compressed { 1u8 } else { 0u8 }, data_type.spec_byte()]
        + varint_bytes(memory_usage) + string_bytes(memo)
}

/// Law: a header in the legacy version-1 layout (magic, version 1, compression flag, data
/// type, memory estimate, memo) reads back as version 1 in the full output mode, with the
/// compression flag, data type, memory estimate and memo written and the header's
/// length, whatever follows it, when the expected data type is the written one and the
/// memory estimate is within the limit, if any.
#[verifier::rlimit(50)]
pub proof fn lemma_header_v1_roundtrip(
    compressed: bool,
    data_type: DataType,
    memory_usage: u64,
    memo: Seq<char>,
    rest: Seq<u8>,
    max_memory_usage: Option<u64>,
)
    requires
        encode_utf8(memo).len() <= u64::MAX,
        max_memory_usage matches Some(limit) ==> memory_usage <= limit,
    ensures
        ({
            let header = header_bytes_v1(compressed, data_type, memory_usage, encode_utf8(memo));
            parse_header(header + rest, Some(data_type.spec_byte()), max_memory_usage) == Ok::<
                HeaderView,
                FileError,
            >(
                (
                    1u8,
                    if compressed { 1u8 } else { 0u8 },
                    data_type.spec_byte(),
                    OutputMode::Full,
                    memory_usage,
                    memo,
                    header.len(),
                ),
            )
        }),
{
    let utf8 = encode_utf8(memo);
    let header = header_bytes_v1(compressed, data_type, memory_usage, utf8);
    let b = header + rest;
    let ct: u8 = if compressed { 1u8 } else { 0u8 };
    let magic = varint_bytes(MAGIC as u64);
    let fixed = seq![1u8, ct, data_type.spec_byte()];
    let mem = varint_bytes(memory_usage);
    let len = varint_bytes(utf8.len() as u64);
    let tail = len + utf8 + rest;
    lemma_varint_len(MAGIC as u64);
    lemma_varint_len(memory_usage);
    lemma_varint_len(utf8.len() as u64);
    assert(magic.len() == 5);
    assert(b =~= magic + (fixed + (mem + tail))) by {
        assert(header =~= magic + fixed + mem + (len + utf8));
    }
    assert(varint_parse_u32(b) == Some((MAGIC, 5nat))) by {
        lemma_varint_roundtrip(MAGIC as u64, fixed + (mem + tail));
    }
    assert(b[5] == 1u8 && b[6] == ct && b[7] == data_type.spec_byte());
    let after_fixed = b.subrange(8, b.len() as int);
    assert(after_fixed =~= mem + tail);
    lemma_varint_roundtrip(memory_usage, tail);
    let p2: int = 8 + mem.len() as int;
    assert(b.subrange(p2, b.len() as int) =~= len + (utf8 + rest));
    lemma_varint_roundtrip(utf8.len() as u64, utf8 + rest);
    let start: int = p2 + len.len() as int;
    assert(b.subrange(start, start + utf8.len()) =~= utf8);
    vstd::utf8::encode_utf8_valid_utf8(memo);
    vstd::utf8::encode_utf8_decode_utf8(memo);
    assert(header.len() == start + utf8.len());
}

/// What a save writes, a load of the same data type gives back: the output mode, the
/// memory estimate, the memo and the data (decompressed, when it was compressed), as
/// long as the memory estimate is within the load's limit, if any.
#[verifier::rlimit(40)]
pub proof fn lemma_save_then_load<T: FileData>(
    data_type: DataType,
    memory_usage: u64,
    body: Seq<u8>,
    memo: Seq<char>,
    compression_level: Option<i32>,
    mode: OutputMode,
    written: Seq<u8>,
    saved: Result<(), FileError>,
    max_memory_usage: Option<u64>,
    loaded: Result<(T, String), FileError>,
)
    requires
        encode_utf8(memo).len() <= u64::MAX,
        save_outcome(
            true,
            data_type,
            memory_usage,
            body,
            encode_utf8(memo),
            compression_level,
            mode,
            Seq::empty(),
            written,
            saved,
        ),
        max_memory_usage matches Some(limit) ==> memory_usage <= limit,
        load_outcome(written, data_type, max_memory_usage, loaded),
    ensures
        loaded is Ok <==> T::spec_decodable(data_type, mode, memory_usage, body),
        loaded matches Ok((d, m)) ==> m@ == memo && T::spec_decodes_to(
            data_type,
            mode,
            memory_usage,
            body,
            d,
        ),
        loaded matches Err(e) ==> e == FileError::ReadFailed(FileField::Data),
{
    let compressed = compression_level is Some;
    let header = header_bytes(compressed, data_type, mode, memory_usage, encode_utf8(memo));
    let payload = match compression_level {
        None => body,
        Some(level) => zstd_frame(body, level as int),
    };
    assert(written =~= header + payload);
    lemma_header_roundtrip(compressed, data_type, mode, memory_usage, memo, payload, max_memory_usage);
    assert(written.subrange(header.len() as int, written.len() as int) =~= payload);
}

} // verus!
