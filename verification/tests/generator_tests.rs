//! Tests that the real row-generation collaborator keeps the promises the
//! library's row-space model rests on: parts are deterministic, and their
//! outputs concatenate to the whole table.

use spatialbench::generators::VehicleGenerator;
use spatialbench_core::plan::GenerationPlan;
use spatialbench_core::table::{OutputFormat, Table};

fn render_vehicle_part(scale_factor: f64, part: u64, parts: u64) -> String {
    let mut out = String::new();
    for item in VehicleGenerator::new(scale_factor, part as i32, parts as i32) {
        out.push_str(&format!("{item}\n"));
    }
    out
}

#[test]
fn test_vehicle_parts_concatenate_to_whole() {
    let scale_factor = 1.0;
    let whole = render_vehicle_part(scale_factor, 1, 1);
    assert!(!whole.is_empty());
    for parts in [2u64, 4, 7] {
        let mut concatenated = String::new();
        for part in 1..=parts {
            concatenated.push_str(&render_vehicle_part(scale_factor, part, parts));
        }
        assert_eq!(concatenated, whole, "parts={parts}");
    }
}

#[test]
fn test_vehicle_rendering_deterministic() {
    let first = render_vehicle_part(1.0, 1, 2);
    let second = render_vehicle_part(1.0, 1, 2);
    assert_eq!(first, second);
}

#[test]
fn test_plan_units_cover_generator_rows() {
    // The units of a whole-table columnar plan, rendered by the real
    // generator and concatenated in plan order, reproduce the whole table.
    let scale_factor = 0.25;
    let plan = GenerationPlan::try_new(&Table::Vehicle, OutputFormat::Parquet, 250, None, None, 0)
        .expect("valid request");
    assert!(plan.units().len() > 1, "the plan subdivides this request");
    let mut concatenated = String::new();
    for unit in plan.units() {
        concatenated.push_str(&render_vehicle_part(scale_factor, unit.part, unit.total_parts));
    }
    let whole = render_vehicle_part(scale_factor, 1, 1);
    assert_eq!(concatenated, whole);
}
