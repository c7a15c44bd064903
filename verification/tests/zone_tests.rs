//! Tests of the zone table's partition ranges, row-group sizing, subtype
//! selection, and request validation.

use spatialbench_core::plan::DEFAULT_PARQUET_ROW_GROUP_BYTES;
use spatialbench_core::zone::{
    compute_rows_per_group_from_stats, estimated_total_rows_for_sf, get_zone_table_stats,
    subtypes_for_scale_factor, zone_row_range, zone_rows_per_group, zones_parquet_url, ZoneDfArgs,
};

fn gb_to_bytes(gb: f64) -> u64 {
    (gb * 1024.0 * 1024.0 * 1024.0) as u64
}

fn create_test_args(scale_factor_milli: u64) -> ZoneDfArgs {
    ZoneDfArgs::new(
        scale_factor_milli,
        String::from("out"),
        Some(1),
        Some(1),
        None,
        DEFAULT_PARQUET_ROW_GROUP_BYTES,
    )
}

#[test]
fn test_zone_generation_invalid_part() {
    let mut args = create_test_args(1000);
    args.parts = Some(2);
    args.part = Some(3); // Invalid part number

    let result = args.validate();
    assert!(result.is_err(), "Should fail with invalid part number");
}

#[test]
fn test_subtypes_for_different_scale_factors() {
    // Test scale factor categorization
    let sf_01_subtypes = subtypes_for_scale_factor(100);
    assert_eq!(sf_01_subtypes, vec!["microhood", "macrohood", "county"]);

    let sf_10_subtypes = subtypes_for_scale_factor(10_000);
    assert_eq!(
        sf_10_subtypes,
        vec!["microhood", "macrohood", "county", "neighborhood"]
    );

    let sf_100_subtypes = subtypes_for_scale_factor(100_000);
    assert!(sf_100_subtypes.contains(&"localadmin"));
    assert!(sf_100_subtypes.contains(&"locality"));

    let sf_1000_subtypes = subtypes_for_scale_factor(1_000_000);
    assert!(sf_1000_subtypes.contains(&"country"));
}

#[test]
fn test_partition_distribution_logic() {
    // Test the mathematical logic for distributing rows across partitions
    let total_rows = 100u64;
    let parts = 3u64;

    let mut collected_rows = Vec::new();
    let mut collected_offsets = Vec::new();

    for part_idx in 0..parts {
        let (offset, rows_this) = zone_row_range(total_rows, parts, part_idx);
        collected_rows.push(rows_this);
        collected_offsets.push(offset);
    }

    // Verify partitioning logic
    assert_eq!(collected_rows.iter().sum::<u64>(), total_rows); // All rows accounted for
    assert_eq!(collected_offsets[0], 0); // First partition starts at 0

    // Verify no gaps or overlaps between partitions
    for i in 1..parts as usize {
        let expected_offset = collected_offsets[i - 1] + collected_rows[i - 1];
        assert_eq!(collected_offsets[i], expected_offset);
    }

    // Verify remainder distribution (first partitions get extra rows)
    let remainder = (total_rows % parts) as usize;
    for i in 0..remainder {
        assert_eq!(collected_rows[i], collected_rows[remainder] + 1);
    }
}

#[test]
fn test_zone_range_coverage_example() {
    // For 100 rows in 3 parts: offsets {0, 34, 67}, counts {34, 33, 33}.
    assert_eq!(zone_row_range(100, 3, 0), (0, 34));
    assert_eq!(zone_row_range(100, 3, 1), (34, 33));
    assert_eq!(zone_row_range(100, 3, 2), (67, 33));
}

#[test]
fn test_rows_per_group_bounds() {
    // Test that compute_rows_per_group_from_stats respects bounds

    // Test minimum bound (should be at least 1000)
    let rows_per_group_tiny = compute_rows_per_group_from_stats(gb_to_bytes(0.001), 1000, 1_000_000);
    assert!(rows_per_group_tiny >= 1000);

    // Test maximum bound (should not exceed 32767)
    let rows_per_group_huge = compute_rows_per_group_from_stats(gb_to_bytes(1000.0), 1000, 1);
    assert!(rows_per_group_huge <= 32767);

    // Test negative target bytes falls back to default
    let rows_per_group_negative = compute_rows_per_group_from_stats(gb_to_bytes(1.0), 100000, -1);
    let rows_per_group_default =
        compute_rows_per_group_from_stats(gb_to_bytes(1.0), 100000, DEFAULT_PARQUET_ROW_GROUP_BYTES);
    assert_eq!(rows_per_group_negative, rows_per_group_default);
}

#[test]
fn test_subtype_selection_logic() {
    // Test the cumulative nature of subtype selection
    let base_subtypes = subtypes_for_scale_factor(1_000);
    let sf10_subtypes = subtypes_for_scale_factor(10_000);
    let sf100_subtypes = subtypes_for_scale_factor(100_000);
    let sf1000_subtypes = subtypes_for_scale_factor(1_000_000);

    // Each higher scale factor should include all previous subtypes
    for subtype in &base_subtypes {
        assert!(sf10_subtypes.contains(subtype));
        assert!(sf100_subtypes.contains(subtype));
        assert!(sf1000_subtypes.contains(subtype));
    }

    for subtype in &sf10_subtypes {
        assert!(sf100_subtypes.contains(subtype));
        assert!(sf1000_subtypes.contains(subtype));
    }

    for subtype in &sf100_subtypes {
        assert!(sf1000_subtypes.contains(subtype));
    }

    // Verify progressive addition
    assert!(sf10_subtypes.len() > base_subtypes.len());
    assert!(sf100_subtypes.len() > sf10_subtypes.len());
    assert!(sf1000_subtypes.len() > sf100_subtypes.len());
}

#[test]
fn test_estimated_rows_scaling_consistency() {
    // Test that estimated rows scale proportionally for SF < 1.0
    let base_rows = estimated_total_rows_for_sf(1_000);
    let half_rows = estimated_total_rows_for_sf(500);
    let quarter_rows = estimated_total_rows_for_sf(250);

    // Should scale proportionally (within rounding)
    assert!((half_rows as f64 - (base_rows as f64 * 0.5)).abs() < 1.0);
    assert!((quarter_rows as f64 - (base_rows as f64 * 0.25)).abs() < 1.0);

    // Test that SF >= 1.0 gives discrete jumps (not proportional scaling)
    let sf1_rows = estimated_total_rows_for_sf(1_000);
    let sf5_rows = estimated_total_rows_for_sf(5_000);
    let sf10_rows = estimated_total_rows_for_sf(10_000);

    // These should be equal (same category)
    assert_eq!(sf1_rows, sf5_rows);

    // This should be different (different category)
    assert_ne!(sf5_rows, sf10_rows);
}

#[test]
fn test_zone_stats_buckets() {
    // The measured statistics by scale-factor bucket.
    assert_eq!(get_zone_table_stats(1_000), (1524713390, 156095));
    assert_eq!(get_zone_table_stats(10_000), (2244120412, 454710));
    assert_eq!(get_zone_table_stats(100_000), (6098853560, 1033456));
    assert_eq!(get_zone_table_stats(1_000_000), (6582037381, 1033675));

    // Linear sub-scaling below scale factor one: half the scale gives half
    // the size, and the row count rounds up.
    let (size_half, rows_half) = get_zone_table_stats(500);
    assert_eq!(size_half, 987842478 * 500 / 1000);
    assert_eq!(rows_half, (156095 * 500 + 999) / 1000);
}

#[test]
fn test_zone_rows_per_group_small_scale_many_parts() {
    // Below scale factor one with several parts, each part is sized from
    // its own share of the scale.
    let direct = zone_rows_per_group(1_000, 4, 1_000_000);
    let (size, rows) = get_zone_table_stats(250);
    let expected = compute_rows_per_group_from_stats(size, rows, 1_000_000);
    assert_eq!(direct, expected);

    // At or above scale factor one the whole-scale statistics are used.
    let above = zone_rows_per_group(2_000, 4, 1_000_000);
    let (size_above, rows_above) = get_zone_table_stats(2_000);
    assert_eq!(
        above,
        compute_rows_per_group_from_stats(size_above, rows_above, 1_000_000)
    );
}

#[test]
fn test_zone_validation_messages() {
    let mut args = create_test_args(1000);
    args.parts = Some(2);
    args.part = Some(3);
    let err = args.validate().unwrap_err();
    assert_eq!(err.message(), "Invalid --part=3 for --parts=2");

    let mut args = create_test_args(1000);
    args.output_file_size_mb = Some(100);
    let err = args.validate().unwrap_err();
    assert_eq!(
        err.message(),
        "Cannot specify --parts/--part with --max-file-size-mb"
    );

    let mut args = create_test_args(1000);
    args.parts = None;
    args.part = None;
    assert!(args.validate().is_ok());
}

#[test]
fn test_zone_partial_partition_spec_rejected() {
    // A partial partition choice is invalid input, not a default.
    let mut args = create_test_args(1000);
    args.parts = None;
    args.part = Some(1);
    let err = args.validate().unwrap_err();
    assert_eq!(
        err.message(),
        "The --part option requires the --parts option to be set"
    );

    let mut args = create_test_args(1000);
    args.parts = Some(4);
    args.part = None;
    let err = args.validate().unwrap_err();
    assert_eq!(
        err.message(),
        "The --part_count option requires the --part option to be set"
    );
}

#[test]
fn test_zone_output_filename() {
    let mut args = create_test_args(1000);
    args.parts = Some(4);
    args.part = Some(2);
    assert_eq!(args.output_filename(), "out/zone/zone.2.parquet");

    let mut args = create_test_args(1000);
    args.parts = Some(1);
    args.part = Some(1);
    assert_eq!(args.output_filename(), "out/zone.parquet");

    let mut args = create_test_args(1000);
    args.parts = None;
    args.part = None;
    assert_eq!(args.output_filename(), "out/zone.parquet");
}

#[test]
fn test_zones_parquet_url() {
    assert_eq!(
        zones_parquet_url(),
        "s3://overturemaps-us-west-2/release/2025-08-20.1/theme=divisions/type=division_area/"
    );
}
