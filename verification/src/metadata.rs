//! The metadata record extracted from one SWF file.
use vstd::prelude::*;

verus! {

/// The fields of a [`Metadata`] record at the specification level.
pub struct MetadataView {
    pub file_name: Seq<char>,
    pub stage_width: u32,
    pub stage_height: u32,
    pub no_of_frames: u32,
    pub frame_rate: u32,
}

/// The record extracted from one SWF file: the file's name, the stage size in
/// pixels, the number of frames, and the frame rate truncated to whole
/// frames per second.
#[derive(Debug)]
pub struct Metadata {
    pub file_name: String,
    pub stage_size: (u32, u32),
    pub no_of_frames: u32,
    pub frame_rate: u32,
}

impl View for Metadata {
    type V = MetadataView;

    open spec fn view(&self) -> MetadataView {
        MetadataView {
            file_name: self.file_name@,
            stage_width: self.stage_size.0,
            stage_height: self.stage_size.1,
            no_of_frames: self.no_of_frames,
            frame_rate: self.frame_rate,
        }
    }
}

impl Metadata {
    /// Build a record from its fields.
    pub fn new(file_name: String, stage_size: (u32, u32), no_of_frames: u32, frame_rate: u32) -> (r:
        Metadata)
        ensures
            r@.file_name == file_name@,
            r@.stage_width == stage_size.0,
            r@.stage_height == stage_size.1,
            r@.no_of_frames == no_of_frames,
            r@.frame_rate == frame_rate,
    {
        Metadata { file_name, stage_size, no_of_frames, frame_rate }
    }
}

impl PartialEq for Metadata {
    fn eq(&self, other: &Metadata) -> (r: bool) {
        self.file_name == other.file_name && self.stage_size.0 == other.stage_size.0
            && self.stage_size.1 == other.stage_size.1 && self.no_of_frames == other.no_of_frames
            && self.frame_rate == other.frame_rate
    }
}

impl vstd::std_specs::cmp::PartialEqSpecImpl for Metadata {
    open spec fn obeys_eq_spec() -> bool {
        true
    }

    open spec fn eq_spec(&self, other: &Metadata) -> bool {
        self@ == other@
    }
}

} // verus!
