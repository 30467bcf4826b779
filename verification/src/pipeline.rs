//! The single-file pipeline: decompress the container, parse the header,
//! build the metadata record, and render it.
use vstd::prelude::*;
use crate::decompress::{decompress, decompress_ok, decompressed_of, sig_recognized, FormatError};
use crate::header::{
    parse_header, header_ok, spec_x_min, spec_x_max, spec_y_min, spec_y_max, spec_num_frames,
    spec_frame_rate_raw, pixel_extent, truncated_frame_rate, pixels_between, frame_rate_whole,
};
use crate::metadata::{Metadata, MetadataView};
use crate::format::{format_metadata, format_spec};

verus! {

/// The record that a named file with the given uncompressed header stream
/// yields: stage extents in whole pixels, the frame count, and the frame
/// rate truncated to whole frames per second.
pub open spec fn metadata_view_of(name: Seq<char>, d: Seq<u8>) -> MetadataView {
    MetadataView {
        file_name: name,
        stage_width: pixel_extent(spec_x_min(d), spec_x_max(d)) as u32,
        stage_height: pixel_extent(spec_y_min(d), spec_y_max(d)) as u32,
        no_of_frames: spec_num_frames(d) as u32,
        frame_rate: truncated_frame_rate(spec_frame_rate_raw(d)) as u32,
    }
}

/// Whether a raw container yields a metadata record: it decompresses, and
/// the decompressed stream holds a complete header.
pub open spec fn extract_ok(b: Seq<u8>) -> bool {
    decompress_ok(b) && header_ok(decompressed_of(b))
}

/// Run the whole pipeline over one file's bytes and render the result with
/// the given format selector.
///
/// Success is owed exactly when the container decompresses and its stream
/// holds a complete header; each error names the stage that rejected the
/// input.
pub fn extract_metadata(file_name: &str, bytes: &Vec<u8>, fmt: &str) -> (r: Result<
    Vec<char>,
    FormatError,
>)
    ensures
        r is Ok <==> extract_ok(bytes@),
        match r {
            Ok(out) => out@ == format_spec(
                metadata_view_of(file_name@, decompressed_of(bytes@)),
                fmt@,
            ),
            Err(e) => {
                &&& (e is UnknownSignature <==> !sig_recognized(bytes@))
                &&& (e matches FormatError::DecompressionFailed(_) <==> sig_recognized(bytes@)
                    && !decompress_ok(bytes@))
                &&& (e is TruncatedHeader <==> decompress_ok(bytes@) && !header_ok(
                    decompressed_of(bytes@),
                ))
            },
        },
{
    let stream = match decompress(bytes) {
        Ok(s) => s,
        Err(e) => {
            return Err(e);
        },
    };
    let fields = match parse_header(&stream.data) {
        Ok(h) => h,
        Err(e) => {
            return Err(e);
        },
    };
    let width = pixels_between(fields.x_min, fields.x_max);
    let height = pixels_between(fields.y_min, fields.y_max);
    let frames: u32 = fields.num_frames as u32;
    let rate: u32 = frame_rate_whole(fields.frame_rate_raw);
    let record = Metadata::new(String::from_str(file_name), (width, height), frames, rate);
    proof {
        assert(record@ == metadata_view_of(file_name@, decompressed_of(bytes@)));
    }
    Ok(format_metadata(&record, fmt))
}

} // verus!
