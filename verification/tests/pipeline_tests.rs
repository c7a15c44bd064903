//! Tests of ordered reassembly, the sink, and the end-to-end byte-identity
//! of partitioned generation.

use spatialbench_core::pipeline::{
    reassemble, write_output, OrderingStage, PipelineError, Reorderer,
};
use spatialbench_core::plan::GenerationPlan;
use spatialbench_core::sink::WriterSink;
use spatialbench_core::table::{OutputFormat, Table};

/// A synthetic pure per-row rendering: one line of text per row index.
fn render_row(row: u64) -> Vec<u8> {
    format!("row {row}\n").into_bytes()
}

/// The row range of unit `(part, total_parts)` over `total` rows, as the
/// row-generation collaborator assigns it: an even share, the last part
/// also taking the remainder.
fn unit_range(part: u64, total_parts: u64, total: u64) -> (u64, u64) {
    let base = total / total_parts;
    let start = (part - 1) * base;
    let count = if part == total_parts {
        base + total % total_parts
    } else {
        base
    };
    (start, count)
}

/// Renders one unit's rows into a chunk.
fn render_unit(part: u64, total_parts: u64, total: u64) -> Vec<u8> {
    let (start, count) = unit_range(part, total_parts, total);
    let mut out = Vec::new();
    for row in start..start + count {
        out.extend_from_slice(&render_row(row));
    }
    out
}

/// Runs one full request: plan, render every unit, reassemble in source
/// order, and write through the sink. Returns the output bytes.
fn run_request(
    format: OutputFormat,
    scale_milli: u64,
    part: Option<u64>,
    parts: Option<u64>,
    total_rows: u64,
) -> Vec<u8> {
    let plan = GenerationPlan::try_new(&Table::Trip, format, scale_milli, part, parts, 0)
        .expect("valid request");
    let units = plan.units();
    let arrivals: Vec<(usize, Vec<u8>)> = units
        .iter()
        .enumerate()
        .map(|(k, u)| (k, render_unit(u.part, u.total_parts, total_rows)))
        .collect();
    let chunks = reassemble(units.len(), arrivals).expect("complete arrivals");
    let mut sink = WriterSink::new();
    write_output(&Vec::new(), &chunks, &mut sink);
    sink.flush()
}

#[test]
fn test_partition_completeness_bytes() {
    // Concatenating the outputs of parts 1..=parts equals the parts=1
    // output byte for byte, for several part counts.
    let total_rows = 103;
    let single = run_request(OutputFormat::Tbl, 1000, None, None, total_rows);
    for parts in [1u64, 2, 4, 8] {
        let mut concatenated = Vec::new();
        for part in 1..=parts {
            concatenated.extend_from_slice(&run_request(
                OutputFormat::Tbl,
                1000,
                Some(part),
                Some(parts),
                total_rows,
            ));
        }
        assert_eq!(concatenated, single, "parts={parts}");
    }
}

#[test]
fn test_parquet_subdivision_preserves_bytes() {
    // The whole-table columnar plan subdivides into several units, and the
    // reassembled bytes still equal the undivided rendering.
    let total_rows = 1001;
    let subdivided = run_request(OutputFormat::Parquet, 1000, None, None, total_rows);
    let undivided = run_request(OutputFormat::Tbl, 1000, None, None, total_rows);
    assert_eq!(subdivided, undivided);
}

#[test]
fn test_thread_count_invariance() {
    // Feeding the same chunks in different arrival orders produces the
    // same output, as a pool of one worker and a pool of eight would.
    let chunks: Vec<Vec<u8>> = (0..8u8).map(|k| vec![k; (k as usize) + 1]).collect();
    let in_order: Vec<(usize, Vec<u8>)> =
        chunks.iter().cloned().enumerate().collect();
    let mut scrambled: Vec<(usize, Vec<u8>)> = in_order.clone();
    scrambled.reverse();
    scrambled.swap(1, 5);
    scrambled.swap(0, 3);

    let out1 = reassemble(8, in_order).expect("complete");
    let out2 = reassemble(8, scrambled).expect("complete");
    assert_eq!(out1, out2);
    assert_eq!(out1, chunks);
}

#[test]
fn test_reassemble_rejects_bad_arrivals() {
    // An arrival past the source count.
    let r = reassemble(2, vec![(0, vec![1]), (2, vec![2])]);
    assert_eq!(r, Err(PipelineError::IndexOutOfRange { index: 2 }));

    // Two arrivals for one source.
    let r = reassemble(2, vec![(0, vec![1]), (0, vec![2])]);
    assert_eq!(r, Err(PipelineError::DuplicateIndex { index: 0 }));

    // A source that never arrives.
    let r = reassemble(2, vec![(0, vec![1])]);
    assert_eq!(r, Err(PipelineError::MissingChunk { index: 1 }));
}

#[test]
fn test_reorderer_releases_in_source_order() {
    let mut ro = Reorderer::new(3, 3);
    assert!(ro.pop_ready().is_none());
    assert!(ro.can_accept(2));
    ro.accept(2, vec![2]);
    // Chunk 2 cannot be released before chunks 0 and 1.
    assert!(ro.pop_ready().is_none());
    ro.accept(0, vec![0]);
    assert_eq!(ro.pop_ready(), Some(vec![0]));
    assert!(ro.pop_ready().is_none());
    ro.accept(1, vec![1]);
    assert_eq!(ro.pop_ready(), Some(vec![1]));
    assert_eq!(ro.pop_ready(), Some(vec![2]));
    assert!(ro.pop_ready().is_none());
}

#[test]
fn test_reorderer_backpressure_window() {
    let mut ro = Reorderer::new(10, 2);
    // Only the first two sources fit the window while nothing is released.
    assert!(ro.can_accept(0));
    assert!(ro.can_accept(1));
    assert!(!ro.can_accept(2));
    ro.accept(0, vec![0]);
    ro.accept(1, vec![1]);
    assert!(!ro.can_accept(2));
    // Releasing the head advances the window.
    assert_eq!(ro.pop_ready(), Some(vec![0]));
    assert!(ro.can_accept(2));
}

#[test]
fn test_ordering_stage_stops_after_first_failure() {
    let mut stage = OrderingStage::new(3, 3);
    assert!(stage.on_chunk(0, vec![0]));
    assert_eq!(stage.next_release(), Some(vec![0]));

    // The first failure ends acceptance and release.
    stage.on_failure(1);
    assert_eq!(stage.error(), Some(1));
    assert!(!stage.on_chunk(2, vec![2])); // in-flight render discarded
    assert!(!stage.on_chunk(1, vec![1]));
    assert_eq!(stage.next_release(), None); // nothing written after the failure

    // A later failure does not displace the first: it is the one reported.
    stage.on_failure(2);
    assert_eq!(stage.error(), Some(1));
}

#[test]
fn test_ordering_stage_clean_run_releases_in_order() {
    let mut stage = OrderingStage::new(3, 3);
    assert!(stage.on_chunk(2, vec![2]));
    assert_eq!(stage.next_release(), None);
    assert!(stage.on_chunk(0, vec![0]));
    assert!(stage.on_chunk(1, vec![1]));
    assert_eq!(stage.next_release(), Some(vec![0]));
    assert_eq!(stage.next_release(), Some(vec![1]));
    assert_eq!(stage.next_release(), Some(vec![2]));
    assert_eq!(stage.next_release(), None);
    assert_eq!(stage.error(), None);
}

#[test]
fn test_sink_counts_chunks_and_bytes() {
    let mut sink = WriterSink::new();
    sink.sink(&[1, 2, 3]);
    sink.sink(&[]);
    sink.sink(&[4, 5]);
    assert_eq!(sink.statistics.chunks, 3);
    assert_eq!(sink.statistics.bytes, 5);
    assert_eq!(sink.flush(), vec![1, 2, 3, 4, 5]);
}

#[test]
fn test_write_output_header_first() {
    let header = b"id|name\n".to_vec();
    let chunks = vec![b"1|a\n".to_vec(), b"2|b\n".to_vec()];
    let mut sink = WriterSink::new();
    write_output(&header, &chunks, &mut sink);
    assert_eq!(sink.statistics.chunks, 3);
    assert_eq!(sink.flush(), b"id|name\n1|a\n2|b\n".to_vec());
}

#[test]
fn test_idempotent_reruns() {
    // Re-running the same request twice produces byte-identical output.
    let first = run_request(OutputFormat::Parquet, 2000, None, None, 517);
    let second = run_request(OutputFormat::Parquet, 2000, None, None, 517);
    assert_eq!(first, second);
}

#[test]
fn test_trip_four_parts_end_to_end() {
    // Scale factor one, four parts of the trip table, each written through
    // its own sink as four separate outputs; concatenating them equals the
    // single-shot parts=1 output.
    let total_rows = 6001;
    let mut outputs: Vec<Vec<u8>> = Vec::new();
    for part in 1..=4u64 {
        let plan = GenerationPlan::try_new(
            &Table::Trip,
            OutputFormat::Tbl,
            1000,
            Some(part),
            Some(4),
            0,
        )
        .expect("valid request");
        let units = plan.units();
        let arrivals: Vec<(usize, Vec<u8>)> = units
            .iter()
            .enumerate()
            .map(|(k, u)| (k, render_unit(u.part, u.total_parts, total_rows)))
            .collect();
        let chunks = reassemble(units.len(), arrivals).expect("complete arrivals");
        let mut sink = WriterSink::new();
        write_output(&Vec::new(), &chunks, &mut sink);
        outputs.push(sink.flush());
    }
    let mut concatenated = Vec::new();
    for out in &outputs {
        concatenated.extend_from_slice(out);
    }
    let single = run_request(OutputFormat::Tbl, 1000, None, None, total_rows);
    assert_eq!(concatenated, single);
}
