use particles::api::{handle_request, Body, Request, Response};
use particles::models::ParticlePayLoad;
use particles::store::ParticleTable;

fn payload(part_type: &str, part_name: &str, mass: i64, charge: &str, spin: &str) -> ParticlePayLoad {
    ParticlePayLoad {
        part_type: part_type.to_string(),
        part_name: part_name.to_string(),
        mass,
        charge: charge.to_string(),
        spin: spin.to_string(),
    }
}

#[test]
fn end_to_end_create_get_update_delete() {
    let mut table = ParticleTable::new();

    // POST /particles with the five business fields.
    let created = match handle_request(
        &mut table,
        Request::CreateParticle(payload("test", "test", 123, "test", "test")),
        1000,
    ) {
        Response { status: 200, body: Body::One(p) } => p,
        other => panic!("unexpected create response with status {}", other.status),
    };
    assert_eq!(created.part_id, 1);
    assert_eq!(created.part_name, "test");
    assert_eq!(created.part_type, "test");
    assert_eq!(created.mass, 123);
    assert_eq!(created.charge, "test");
    assert_eq!(created.spin, "test");
    assert_eq!(created.created_at, created.updated_at);

    // GET /particles/{id} returns the same object.
    match handle_request(&mut table, Request::GetParticle(created.part_id), 1500) {
        Response { status: 200, body: Body::MaybeOne(Some(p)) } => {
            assert_eq!(p.part_id, created.part_id);
            assert_eq!(p.part_name, created.part_name);
            assert_eq!(p.part_type, created.part_type);
            assert_eq!(p.mass, created.mass);
            assert_eq!(p.charge, created.charge);
            assert_eq!(p.spin, created.spin);
            assert_eq!(p.created_at, created.created_at);
            assert_eq!(p.updated_at, created.updated_at);
        }
        other => panic!("unexpected get response with status {}", other.status),
    }

    // PUT /particles/{id} with a changed name: updated_at strictly later.
    match handle_request(
        &mut table,
        Request::UpdateParticle(created.part_id, payload("test", "test-v1", 123, "test", "test")),
        2000,
    ) {
        Response { status: 200, body: Body::One(p) } => {
            assert_eq!(p.part_id, created.part_id);
            assert_eq!(p.part_name, "test-v1");
            assert_eq!(p.created_at, created.created_at);
            assert!(p.updated_at > created.updated_at);
        }
        other => panic!("unexpected update response with status {}", other.status),
    }

    // DELETE /particles/{id} reports one removed row.
    match handle_request(&mut table, Request::DeleteParticle(created.part_id), 2500) {
        Response { status: 200, body: Body::Count(n) } => assert_eq!(n, 1),
        other => panic!("unexpected delete response with status {}", other.status),
    }

    // GET /particles/{id} afterwards finds nothing.
    match handle_request(&mut table, Request::GetParticle(created.part_id), 3000) {
        Response { status: 200, body: Body::MaybeOne(None) } => {}
        other => panic!("unexpected get response with status {}", other.status),
    }
}

#[test]
fn update_of_missing_id_maps_to_server_error() {
    let mut table = ParticleTable::new();
    match handle_request(
        &mut table,
        Request::UpdateParticle(18, payload("test-v1", "test-v1", 1234, "test", "test")),
        100,
    ) {
        Response { status: 500, body: Body::ErrorText(text) } => {
            assert_eq!(text, "record not found");
        }
        other => panic!("unexpected update response with status {}", other.status),
    }
}

#[test]
fn delete_of_missing_id_maps_to_zero_count() {
    let mut table = ParticleTable::new();
    match handle_request(&mut table, Request::DeleteParticle(18), 100) {
        Response { status: 200, body: Body::Count(n) } => assert_eq!(n, 0),
        other => panic!("unexpected delete response with status {}", other.status),
    }
}

#[test]
fn list_returns_rows_in_storage_order() {
    let mut table = ParticleTable::new();
    handle_request(
        &mut table,
        Request::CreateParticle(payload("quark", "up", 2200000, "2/3", "1/2")),
        10,
    );
    handle_request(
        &mut table,
        Request::CreateParticle(payload("quark", "down", 4700000, "-1/3", "1/2")),
        20,
    );
    match handle_request(&mut table, Request::ListParticles, 30) {
        Response { status: 200, body: Body::ParticleList(rows) } => {
            assert_eq!(rows.len(), 2);
            assert_eq!(rows[0].part_id, 1);
            assert_eq!(rows[0].part_name, "up");
            assert_eq!(rows[1].part_id, 2);
            assert_eq!(rows[1].part_name, "down");
        }
        other => panic!("unexpected list response with status {}", other.status),
    }
}
