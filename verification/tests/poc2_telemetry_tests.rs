use holo_engine::tda::{betti_from_adjacency, persistence_pair_plan};
use holo_engine::telemetry::SnapshotHistory;

/// Harmonic shell point cloud used by the persistence engine.
fn generate_point_cloud(num_points: usize, box_size: f32) -> Vec<[f32; 3]> {
    let mut particles = Vec::new();
    let step = box_size / (num_points as f32).cbrt().ceil();
    let half_box = box_size * 0.5;
    let mut x = -half_box;
    while x <= half_box {
        let mut y = -half_box;
        while y <= half_box {
            let mut z = -half_box;
            while z <= half_box {
                let r = (x * x + y * y + z * z).sqrt();
                let wave = (x * 0.5).sin() * (y * 0.5).cos() + (z * 0.5).sin();
                let density = (r - 8.0).abs() + wave * 2.0;
                if density.abs() < step * 1.5 {
                    particles.push([x, y, z]);
                }
                z += step;
            }
            y += step;
        }
        x += step;
    }
    particles
}

fn rips_adjacency(points: &[[f32; 3]], epsilon: f32) -> Vec<Vec<bool>> {
    let n = points.len();
    let mut adj = vec![vec![false; n]; n];
    for i in 0..n {
        for j in (i + 1)..n {
            let dx = points[i][0] - points[j][0];
            let dy = points[i][1] - points[j][1];
            let dz = points[i][2] - points[j][2];
            if (dx * dx + dy * dy + dz * dz).sqrt() <= epsilon {
                adj[i][j] = true;
                adj[j][i] = true;
            }
        }
    }
    adj
}

#[test]
fn test_tda_vietoris_rips_betti_numbers() {
    let epsilon = 5.0f32;
    let particles = generate_point_cloud(64, 15.0);
    assert!(!particles.is_empty(), "Point cloud generation should produce spatial particles");

    let betti = betti_from_adjacency(&rips_adjacency(&particles, epsilon));
    assert!(betti.betti_0 > 0, "Betti 0 (connected components) must be positive");

    let plan = persistence_pair_plan(&betti);
    assert!(!plan.is_empty(), "Persistence landscape should contain persistence pairs");
    let mut energy = 0.0f32;
    for (dim, i) in plan {
        let (birth, death) = if dim == 0 {
            (0.0, epsilon * (1.0 + (i as f32) * 0.1))
        } else {
            (epsilon * 0.4, epsilon * (1.2 + (i as f32) * 0.15))
        };
        energy += death - birth;
    }
    assert!(energy > 0.0, "Total persistence energy must be positive");
}

#[test]
fn telemetry_latest_snapshot_fields_as_json() {
    let mut telemetry: SnapshotHistory<(f32, usize, u64)> = SnapshotHistory::new(10);
    telemetry.record_snapshot((60.0, 14, 2648));
    assert_eq!(telemetry.len(), 1);

    let latest = telemetry.latest().expect("a snapshot was recorded");
    let mut fields = serde_json::Map::new();
    fields.insert("fps".to_string(), serde_json::Value::from(latest.0 as f64));
    fields.insert("betti_0".to_string(), serde_json::Value::from(latest.1 as u64));
    fields.insert("amcp_packet_throughput".to_string(), serde_json::Value::from(latest.2));
    let json_report = serde_json::to_string_pretty(&serde_json::Value::Object(fields)).unwrap();
    assert!(json_report.contains("\"fps\": 60.0"));
    assert!(json_report.contains("\"betti_0\": 14"));
    assert!(json_report.contains("\"amcp_packet_throughput\": 2648"));
}

#[test]
fn telemetry_history_keeps_most_recent() {
    let mut h: SnapshotHistory<u32> = SnapshotHistory::new(3);
    for s in 1..=5u32 {
        h.record_snapshot(s);
    }
    assert_eq!(h.len(), 3);
    assert_eq!(h.latest(), Some(&5));
    assert_eq!(h.max_snapshots(), 3);

    let mut z: SnapshotHistory<u32> = SnapshotHistory::new(0);
    z.record_snapshot(7);
    z.record_snapshot(8);
    assert_eq!(z.len(), 1);
    assert_eq!(z.latest(), Some(&8));

    let empty: SnapshotHistory<u32> = SnapshotHistory::new(4);
    assert_eq!(empty.latest(), None);
}
