//! Batch processing over in-memory file contents.
//!
//! The runner walks a list of (path, bytes) entries, selects those whose
//! extension matches `swf` case-insensitively, runs the single-file
//! pipeline on each, and collects one output artifact per success and the
//! path of each failure.  One bad file never stops the batch.
use vstd::prelude::*;
use crate::decompress::FormatError;
use crate::paths::{is_swf_name, is_swf_path, output_path_spec, output_path_for};
use crate::pipeline::{extract_ok, extract_metadata, metadata_view_of};
use crate::decompress::decompressed_of;
use crate::format::format_spec;

verus! {

/// One candidate file: its path and its raw bytes.
pub struct BatchEntry {
    pub path: String,
    pub bytes: Vec<u8>,
}

/// Whether a batch entry is selected for processing.
pub open spec fn entry_selected(e: BatchEntry) -> bool {
    is_swf_name(e.path@)
}

/// The output artifact an entry yields: its derived output path and the
/// rendered metadata.
pub open spec fn entry_output(e: BatchEntry, fmt: Seq<char>) -> (Seq<char>, Seq<char>) {
    (
        output_path_spec(e.path@, fmt),
        format_spec(metadata_view_of(e.path@, decompressed_of(e.bytes@)), fmt),
    )
}

/// The artifacts of the selected entries whose pipeline succeeds, in entry
/// order.
pub open spec fn batch_outputs(entries: Seq<BatchEntry>, fmt: Seq<char>) -> Seq<
    (Seq<char>, Seq<char>),
>
    decreases entries.len(),
{
    if entries.len() == 0 {
        Seq::empty()
    } else {
        batch_outputs(entries.drop_last(), fmt) + if entry_selected(entries.last()) && extract_ok(
            entries.last().bytes@,
        ) {
            seq![entry_output(entries.last(), fmt)]
        } else {
            Seq::empty()
        }
    }
}

/// The paths of the selected entries whose pipeline fails, in entry order.
pub open spec fn batch_failures(entries: Seq<BatchEntry>) -> Seq<Seq<char>>
    decreases entries.len(),
{
    if entries.len() == 0 {
        Seq::empty()
    } else {
        batch_failures(entries.drop_last()) + if entry_selected(entries.last()) && !extract_ok(
            entries.last().bytes@,
        ) {
            seq![entries.last().path@]
        } else {
            Seq::empty()
        }
    }
}

/// What one batch run produced.
pub struct BatchResult {
    /// One (output path, rendered metadata) artifact per processed file.
    pub outputs: Vec<(Vec<char>, Vec<char>)>,
    /// The paths of the selected files whose pipeline failed.
    pub failures: Vec<(Vec<char>, FormatError)>,
    /// How many files were processed to an artifact.
    pub processed: usize,
}

/// Run the pipeline over every selected entry, isolating per-file failures.
pub fn process_batch(entries: &Vec<BatchEntry>, fmt: &str) -> (r: BatchResult)
    ensures
        r.outputs@.len() == batch_outputs(entries@, fmt@).len(),
        forall|j: int|
            0 <= j < r.outputs@.len() ==> #[trigger] r.outputs@[j].0@ == batch_outputs(
                entries@,
                fmt@,
            )[j].0 && r.outputs@[j].1@ == batch_outputs(entries@, fmt@)[j].1,
        r.failures@.len() == batch_failures(entries@).len(),
        forall|j: int|
            0 <= j < r.failures@.len() ==> #[trigger] r.failures@[j].0@ == batch_failures(
                entries@,
            )[j],
        r.processed == batch_outputs(entries@, fmt@).len(),
{
    let mut outputs: Vec<(Vec<char>, Vec<char>)> = Vec::new();
    let mut failures: Vec<(Vec<char>, FormatError)> = Vec::new();
    let mut i: usize = 0;
    while i < entries.len()
        invariant
            i <= entries@.len(),
            outputs@.len() == batch_outputs(entries@.take(i as int), fmt@).len(),
            forall|j: int|
                0 <= j < outputs@.len() ==> #[trigger] outputs@[j].0@ == batch_outputs(
                    entries@.take(i as int),
                    fmt@,
                )[j].0 && outputs@[j].1@ == batch_outputs(entries@.take(i as int), fmt@)[j].1,
            failures@.len() == batch_failures(entries@.take(i as int)).len(),
            forall|j: int|
                0 <= j < failures@.len() ==> #[trigger] failures@[j].0@ == batch_failures(
                    entries@.take(i as int),
                )[j],
        decreases entries@.len() - i,
    {
        let entry = &entries[i];
        proof {
            assert(entries@.take(i as int + 1).drop_last() =~= entries@.take(i as int));
            assert(entries@.take(i as int + 1).last() == entries@[i as int]);
        }
        if is_swf_path(entry.path.as_str()) {
            match extract_metadata(entry.path.as_str(), &entry.bytes, fmt) {
                Ok(content) => {
                    let out_path = output_path_for(entry.path.as_str(), fmt);
                    outputs.push((out_path, content));
                },
                Err(e) => {
                    let path_chars = crate::text::str_to_chars(entry.path.as_str());
                    failures.push((path_chars, e));
                },
            }
        }
        proof {
            let e = entries@[i as int];
            if !(entry_selected(e) && extract_ok(e.bytes@)) {
                assert(batch_outputs(entries@.take(i as int + 1), fmt@) =~= batch_outputs(
                    entries@.take(i as int),
                    fmt@,
                ));
            }
            if !(entry_selected(e) && !extract_ok(e.bytes@)) {
                assert(batch_failures(entries@.take(i as int + 1)) =~= batch_failures(
                    entries@.take(i as int),
                ));
            }
        }
        i = i + 1;
    }
    proof {
        assert(entries@.take(i as int) =~= entries@);
    }
    let processed = outputs.len();
    BatchResult { outputs, failures, processed }
}

} // verus!
