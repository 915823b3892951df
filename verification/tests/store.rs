use particles::models::{ParticlePayLoad, StorageError};
use particles::store::ParticleTable;

fn payload(part_type: &str, part_name: &str, mass: i64, charge: &str, spin: &str) -> ParticlePayLoad {
    ParticlePayLoad {
        part_type: part_type.to_string(),
        part_name: part_name.to_string(),
        mass,
        charge: charge.to_string(),
        spin: spin.to_string(),
    }
}

#[test]
fn insert_then_get_returns_equal_row() {
    let mut table = ParticleTable::new();
    let created = table.add_particle_at(&payload("quark", "up", 2200000, "2/3", "1/2"), 100);
    assert_eq!(created.part_id, 1);
    assert_eq!(created.part_type, "quark");
    assert_eq!(created.part_name, "up");
    assert_eq!(created.mass, 2200000);
    assert_eq!(created.charge, "2/3");
    assert_eq!(created.spin, "1/2");
    assert_eq!(created.created_at, 100);
    assert_eq!(created.updated_at, 100);

    let fetched = table.find_particle_by_id(created.part_id).unwrap();
    assert_eq!(fetched.part_id, created.part_id);
    assert_eq!(fetched.part_type, created.part_type);
    assert_eq!(fetched.part_name, created.part_name);
    assert_eq!(fetched.mass, created.mass);
    assert_eq!(fetched.charge, created.charge);
    assert_eq!(fetched.spin, created.spin);
    assert_eq!(fetched.created_at, created.created_at);
    assert_eq!(fetched.updated_at, created.updated_at);
}

#[test]
fn delete_then_get_finds_nothing() {
    let mut table = ParticleTable::new();
    let created = table.add_particle_at(&payload("lepton", "electron", 511000, "-1", "1/2"), 7);
    assert!(table.find_particle_by_id(created.part_id).is_some());
    let count = table.delete_particle(created.part_id);
    assert_eq!(count, 1);
    assert!(table.find_particle_by_id(created.part_id).is_none());
}

#[test]
fn update_preserves_created_at_and_bumps_updated_at() {
    let mut table = ParticleTable::new();
    let created = table.add_particle_at(&payload("quark", "charm", 1280000000, "2/3", "1/2"), 100);
    let updated = table
        .update_particle_at(created.part_id, &payload("quark", "charm-v1", 1280000001, "2/3", "1/2"), 200)
        .unwrap();
    assert_eq!(updated.part_id, created.part_id);
    assert_eq!(updated.part_name, "charm-v1");
    assert_eq!(updated.mass, 1280000001);
    assert_eq!(updated.created_at, 100);
    assert_eq!(updated.updated_at, 200);
    assert!(updated.updated_at >= created.updated_at);

    let fetched = table.find_particle_by_id(created.part_id).unwrap();
    assert_eq!(fetched.created_at, 100);
    assert_eq!(fetched.updated_at, 200);
    assert_eq!(fetched.part_name, "charm-v1");
}

#[test]
fn list_all_holds_each_inserted_particle_exactly_once() {
    let inputs = [
        ("quark", "up", 2200000i64, "2/3", "1/2"),
        ("quark", "down", 4700000, "-1/3", "1/2"),
        ("quark", "top", 173100000000, "2/3", "1/2"),
        ("quark", "bottom", 4180000000, "-1/3", "1/2"),
        ("quark", "charm", 1280000000, "2/3", "1/2"),
        ("quark", "strange", 96000000, "-1/3", "1/2"),
        ("lepton", "electron", 511000, "-1", "1/2"),
        ("lepton", "electron neutrino", 1, "0", "1/2"),
        ("lepton", "muon", 105660000, "-1", "1/2"),
        ("lepton", "muon neutrino", 170000, "0", "1/2"),
        ("lepton", "tau", 1776800000, "-1", "1/2"),
        ("lepton", "tau neutrino", 18200000, "0", "1/2"),
        ("gaugeBoson", "gluon", 0, "0", "1"),
        ("gaugeBoson", "photon", 0, "0", "1"),
        ("gaugeBoson", "z boson", 91190000000, "0", "1"),
        ("gaugeBoson", "w boson", 80433000000, "+-1", "1"),
        ("scalarBoson", "higs boson", 124970000000, "0", "0"),
    ];
    let mut table = ParticleTable::new();
    for (part_type, part_name, mass, charge, spin) in inputs.iter() {
        table.add_particle_at(&payload(part_type, part_name, *mass, charge, spin), 100);
    }
    let all = table.find_all_particles();
    assert_eq!(all.len(), inputs.len());
    for (k, (part_type, part_name, mass, charge, spin)) in inputs.iter().enumerate() {
        let row = &all[k];
        assert_eq!(row.part_id, (k + 1) as i32);
        assert_eq!(&row.part_type, part_type);
        assert_eq!(&row.part_name, part_name);
        assert_eq!(row.mass, *mass);
        assert_eq!(&row.charge, charge);
        assert_eq!(&row.spin, spin);
    }
    for i in 0..all.len() {
        for j in 0..all.len() {
            if i != j {
                assert_ne!(all[i].part_id, all[j].part_id);
            }
        }
    }
}

#[test]
fn delete_of_missing_id_returns_zero_not_an_error() {
    let mut table = ParticleTable::new();
    assert_eq!(table.delete_particle(42), 0);
    let created = table.add_particle_at(&payload("quark", "down", 4700000, "-1/3", "1/2"), 5);
    assert_eq!(table.delete_particle(created.part_id + 1), 0);
    assert_eq!(table.find_all_particles().len(), 1);
    assert_eq!(table.delete_particle(created.part_id), 1);
    assert_eq!(table.delete_particle(created.part_id), 0);
}

#[test]
fn update_of_missing_id_is_not_found() {
    let mut table = ParticleTable::new();
    let result = table.update_particle_at(9, &payload("quark", "up", 1, "2/3", "1/2"), 10);
    assert!(matches!(result, Err(StorageError::NotFound)));
    let err = table
        .update_particle_at(9, &payload("quark", "up", 1, "2/3", "1/2"), 10)
        .err()
        .unwrap();
    assert_eq!(err.message(), "record not found");
}

#[test]
fn clock_stamped_create_uses_one_instant_for_both_timestamps() {
    let mut table = ParticleTable::new();
    let first = table.add_particle(&payload("lepton", "muon", 105660000, "-1", "1/2"));
    assert_eq!(first.created_at, first.updated_at);
    assert_eq!(first.part_id, 1);
    let second = table.add_particle(&payload("lepton", "tau", 1776800000, "-1", "1/2"));
    assert_eq!(second.part_id, 2);
    assert_eq!(second.created_at, second.updated_at);
}

#[test]
fn clock_stamped_update_replaces_fields_wholesale() {
    let mut table = ParticleTable::new();
    let created = table.add_particle(&payload("quark", "strange", 96000000, "-1/3", "1/2"));
    let updated = table
        .update_particle(created.part_id, &payload("quark", "strange-v1", 96000001, "-1/3", "1/2"))
        .unwrap();
    assert_eq!(updated.part_id, created.part_id);
    assert_eq!(updated.part_name, "strange-v1");
    assert_eq!(updated.mass, 96000001);
    assert_eq!(updated.created_at, created.created_at);
}
