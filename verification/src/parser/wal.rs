use crate::error::SqliteVizError;
use crate::model::wal::{WalFile, WalFrame, WalFrameHeader, WalFrameV, WalHeader,
    WAL_MAGIC_BIG_ENDIAN, WAL_MAGIC_LITTLE_ENDIAN};
use crate::parser::bytes::{copy_bytes, lemma_be_uint_subrange, read_be_u32, spec_be_uint};
use crate::parser::page::{parse_page, spec_parse_page};
use vstd::prelude::*;

verus! {

/// WAL header size in bytes.
pub const WAL_HEADER_SIZE: usize = 32;

/// WAL frame header size in bytes.
pub const WAL_FRAME_HEADER_SIZE: usize = 24;

/// Whether the buffer begins with one of the two WAL magic values.
pub open spec fn spec_is_wal_file(data: Seq<u8>) -> bool {
    data.len() >= 4 && (spec_be_uint(data, 0, 4) == WAL_MAGIC_BIG_ENDIAN || spec_be_uint(
        data,
        0,
        4,
    ) == WAL_MAGIC_LITTLE_ENDIAN)
}

/// Check whether the data starts with WAL magic bytes.
pub fn is_wal_file(data: &[u8]) -> (r: bool)
    ensures
        r == spec_is_wal_file(data@),
{
    if data.len() < 4 {
        return false;
    }
    let magic = read_be_u32(data, 0);
    magic == WAL_MAGIC_BIG_ENDIAN || magic == WAL_MAGIC_LITTLE_ENDIAN
}

/// The WAL header held in the first 32 bytes of a buffer whose magic
/// is one of the two accepted values.
pub open spec fn spec_wal_header(data: Seq<u8>) -> WalHeader {
    WalHeader {
        magic: spec_be_uint(data, 0, 4) as u32,
        format_version: spec_be_uint(data, 4, 4) as u32,
        page_size: spec_be_uint(data, 8, 4) as u32,
        checkpoint_sequence: spec_be_uint(data, 12, 4) as u32,
        salt1: spec_be_uint(data, 16, 4) as u32,
        salt2: spec_be_uint(data, 20, 4) as u32,
        checksum1: spec_be_uint(data, 24, 4) as u32,
        checksum2: spec_be_uint(data, 28, 4) as u32,
    }
}

/// Parse the 32-byte WAL header. A short buffer is truncated; a magic
/// other than the two accepted constants is invalid.
pub fn parse_wal_header(data: &[u8]) -> (r: Result<WalHeader, SqliteVizError>)
    ensures
        data@.len() < 32 ==> r == Err::<WalHeader, SqliteVizError>(
            SqliteVizError::UnexpectedEof { context: "WAL header" },
        ),
        data@.len() >= 32 && !spec_is_wal_file(data@) ==> r == Err::<WalHeader, SqliteVizError>(
            SqliteVizError::InvalidWalMagic(spec_be_uint(data@, 0, 4) as u32),
        ),
        data@.len() >= 32 && spec_is_wal_file(data@) ==> r == Ok::<WalHeader, SqliteVizError>(
            spec_wal_header(data@),
        ),
{
    if data.len() < WAL_HEADER_SIZE {
        return Err(SqliteVizError::UnexpectedEof { context: "WAL header" });
    }

    let magic = read_be_u32(data, 0);
    if magic != WAL_MAGIC_BIG_ENDIAN && magic != WAL_MAGIC_LITTLE_ENDIAN {
        return Err(SqliteVizError::InvalidWalMagic(magic));
    }

    Ok(
        WalHeader {
            magic,
            format_version: read_be_u32(data, 4),
            page_size: read_be_u32(data, 8),
            checkpoint_sequence: read_be_u32(data, 12),
            salt1: read_be_u32(data, 16),
            salt2: read_be_u32(data, 20),
            checksum1: read_be_u32(data, 24),
            checksum2: read_be_u32(data, 28),
        },
    )
}

/// The WAL frame header held in the 24 bytes at `off`.
pub open spec fn spec_wal_frame_header_at(data: Seq<u8>, off: int) -> WalFrameHeader {
    WalFrameHeader {
        page_number: spec_be_uint(data, off, 4) as u32,
        db_size_after_commit: spec_be_uint(data, off + 4, 4) as u32,
        salt1: spec_be_uint(data, off + 8, 4) as u32,
        salt2: spec_be_uint(data, off + 12, 4) as u32,
        checksum1: spec_be_uint(data, off + 16, 4) as u32,
        checksum2: spec_be_uint(data, off + 20, 4) as u32,
    }
}

/// Parse a single 24-byte WAL frame header.
pub fn parse_wal_frame_header(data: &[u8]) -> (r: Result<WalFrameHeader, SqliteVizError>)
    ensures
        r is Err <==> data@.len() < 24,
        r matches Err(e) ==> e == (SqliteVizError::UnexpectedEof { context: "WAL frame header" }),
        r matches Ok(h) ==> h == spec_wal_frame_header_at(data@, 0),
{
    if data.len() < WAL_FRAME_HEADER_SIZE {
        return Err(SqliteVizError::UnexpectedEof { context: "WAL frame header" });
    }

    Ok(
        WalFrameHeader {
            page_number: read_be_u32(data, 0),
            db_size_after_commit: read_be_u32(data, 4),
            salt1: read_be_u32(data, 8),
            salt2: read_be_u32(data, 12),
            checksum1: read_be_u32(data, 16),
            checksum2: read_be_u32(data, 20),
        },
    )
}

/// The frames of a WAL image from `offset` on: while a whole frame
/// (24-byte header plus one page image) fits, and its salts match the
/// WAL header's, the frame is taken and the walk moves past it; the
/// first frame with a stale salt ends the sequence entirely. Each
/// frame's page image is decoded with the frame's own page number, so
/// a WAL copy of page 1 keeps its 100-byte prefix; an image that does
/// not parse leaves the frame's page empty.
pub open spec fn spec_wal_frames(
    data: Seq<u8>,
    header: WalHeader,
    offset: int,
    frame_index: int,
) -> Seq<WalFrameV>
    decreases data.len() - offset,
{
    let frame_size = 24 + header.page_size as int;
    if offset < 0 || offset + frame_size > data.len() {
        Seq::empty()
    } else {
        let fh = spec_wal_frame_header_at(data, offset);
        if fh.salt1 != header.salt1 || fh.salt2 != header.salt2 {
            Seq::empty()
        } else {
            let page_bytes = data.subrange(offset + 24, offset + frame_size);
            let page = spec_parse_page(
                page_bytes,
                fh.page_number,
                header.page_size,
                header.page_size as int,
            );
            seq![
                WalFrameV {
                    frame_index: frame_index as usize,
                    header: fh,
                    page,
                    raw_page_data: page_bytes,
                },
            ] + spec_wal_frames(data, header, offset + frame_size, frame_index + 1)
        }
    }
}

/// One definitional unfolding of [`spec_wal_frames`] at a frame
/// whose salts match.
proof fn lemma_wal_frames_unfold(data: Seq<u8>, header: WalHeader, offset: int, frame_index: int)
    requires
        0 <= offset,
        offset + 24 + header.page_size <= data.len(),
        spec_wal_frame_header_at(data, offset).salt1 == header.salt1,
        spec_wal_frame_header_at(data, offset).salt2 == header.salt2,
    ensures
        spec_wal_frames(data, header, offset, frame_index) == seq![
            WalFrameV {
                frame_index: frame_index as usize,
                header: spec_wal_frame_header_at(data, offset),
                page: spec_parse_page(
                    data.subrange(offset + 24, offset + 24 + header.page_size),
                    spec_wal_frame_header_at(data, offset).page_number,
                    header.page_size,
                    header.page_size as int,
                ),
                raw_page_data: data.subrange(offset + 24, offset + 24 + header.page_size),
            },
        ] + spec_wal_frames(data, header, offset + 24 + header.page_size, frame_index + 1),
{
}

/// Parse an entire WAL file: the 32-byte header, then the longest
/// prefix of whole frames whose salts match the header. A frame with
/// a stale salt stops the walk; it is not skipped.
#[verifier::rlimit(100)]
pub fn parse_wal_file(data: &[u8], file_name: String) -> (r: Result<WalFile, SqliteVizError>)
    ensures
        r is Ok <==> data@.len() >= 32 && spec_is_wal_file(data@),
        data@.len() < 32 ==> r == Err::<WalFile, SqliteVizError>(
            SqliteVizError::UnexpectedEof { context: "WAL header" },
        ),
        data@.len() >= 32 && !spec_is_wal_file(data@) ==> r == Err::<WalFile, SqliteVizError>(
            SqliteVizError::InvalidWalMagic(spec_be_uint(data@, 0, 4) as u32),
        ),
        r matches Ok(w) ==> {
            &&& w@.header == spec_wal_header(data@)
            &&& w@.frames == spec_wal_frames(data@, spec_wal_header(data@), 32, 0)
            &&& w@.file_name == file_name@
        },
{
    let dlen = data.len();
    let header = match parse_wal_header(data) {
        Ok(h) => h,
        Err(e) => {
            return Err(e);
        },
    };

    let frame_size: u64 = 24 + header.page_size as u64;

    let ghost frames_spec = spec_wal_frames(data@, header, 32, 0);

    let mut frames: Vec<WalFrame> = Vec::new();
    let mut offset: usize = WAL_HEADER_SIZE;
    let mut frame_index: usize = 0;

    proof {
        assert(frames.deep_view() =~= Seq::<WalFrameV>::empty());
    }
    while frame_size <= (dlen - offset) as u64
        invariant_except_break
            dlen == data@.len(),
            frame_size == 24 + header.page_size as int,
            offset <= dlen,
            frame_index <= offset,
            frame_index == frames@.len(),
            frames_spec == spec_wal_frames(data@, header, 32, 0),
            frames_spec =~= frames.deep_view() + spec_wal_frames(
                data@,
                header,
                offset as int,
                frame_index as int,
            ),
        ensures
            frames_spec =~= frames.deep_view(),
        decreases dlen - offset,
    {
        let frame_size_usize = frame_size as usize;
        let frame_header_slice = vstd::slice::slice_subrange(
            data,
            offset,
            offset + WAL_FRAME_HEADER_SIZE,
        );
        let frame_header = match parse_wal_frame_header(frame_header_slice) {
            Ok(h) => h,
            Err(_) => {
                proof {
                    assert(false);
                }
                return Err(SqliteVizError::UnexpectedEof { context: "WAL frame header" });
            },
        };
        proof {
            let a = offset as int;
            lemma_be_uint_subrange(data@, a, a + 24, 0, 4);
            lemma_be_uint_subrange(data@, a, a + 24, 4, 4);
            lemma_be_uint_subrange(data@, a, a + 24, 8, 4);
            lemma_be_uint_subrange(data@, a, a + 24, 12, 4);
            lemma_be_uint_subrange(data@, a, a + 24, 16, 4);
            lemma_be_uint_subrange(data@, a, a + 24, 20, 4);
            assert(frame_header == spec_wal_frame_header_at(data@, a));
        }

        if frame_header.salt1 != header.salt1 || frame_header.salt2 != header.salt2 {
            proof {
                assert(spec_wal_frames(data@, header, offset as int, frame_index as int)
                    =~= Seq::<WalFrameV>::empty());
            }
            break ;
        }
        let page_data = copy_bytes(data, offset + WAL_FRAME_HEADER_SIZE, frame_size_usize - 24);

        let page = match parse_page(
            page_data.as_slice(),
            frame_header.page_number,
            header.page_size,
            header.page_size,
        ) {
            Ok(p) => Some(p),
            Err(_) => None,
        };

        let ghost prev_frames = frames.deep_view();
        let frame = WalFrame { frame_index, header: frame_header, page, raw_page_data: page_data };
        let ghost fv = frame@;
        frames.push(frame);
        proof {
            lemma_wal_frames_unfold(data@, header, offset as int, frame_index as int);
            assert(frames.deep_view() =~= prev_frames + seq![fv]);
            assert(frames_spec =~= frames.deep_view() + spec_wal_frames(
                data@,
                header,
                offset + frame_size,
                frame_index + 1,
            ));
        }

        offset = offset + frame_size_usize;
        frame_index = frame_index + 1;
    }

    Ok(WalFile { header, frames, file_name })
}

} // verus!
