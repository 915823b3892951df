//! The request-handler layer: one parsed request in, one storage call, one
//! typed response out. The web layer parses paths and JSON bodies before this
//! point and serializes the typed body afterwards.

use vstd::prelude::*;

use crate::models::{new_model, updated_model, Particle, ParticlePayLoad, StorageError};
use crate::store::{
    contains_id, spec_delete, spec_get, spec_insert, spec_update, table_wf, ParticleTable,
};

verus! {

/// One parsed request, after the web layer has read the path id and decoded
/// the JSON body.
pub enum Request {
    ListParticles,
    GetParticle(i32),
    CreateParticle(ParticlePayLoad),
    UpdateParticle(i32, ParticlePayLoad),
    DeleteParticle(i32),
}

/// The typed body of a response, as handed to the serializer.
pub enum Body {
    ParticleList(Vec<Particle>),
    One(Particle),
    MaybeOne(Option<Particle>),
    Count(usize),
    ErrorText(String),
}

/// A response: an HTTP status code and a typed body.
pub struct Response {
    pub status: u16,
    pub body: Body,
}

/// Dispatches one request to its single storage operation and maps the
/// outcome: every success is a 200 carrying the operation's result as-is,
/// and a storage failure a 500 carrying the error's description. `now` is
/// the instant stamped on the rows a create or update touches.
pub fn handle_request(table: &mut ParticleTable, req: Request, now: i64) -> (resp: Response)
    requires
        table_wf(old(table)@),
        req is CreateParticle ==> old(table)@.next_id < i32::MAX as int,
    ensures
        table_wf(final(table)@),
        req is ListParticles ==> final(table)@ == old(table)@ && resp.status == 200
            && resp.body is ParticleList && resp.body->ParticleList_0@.map_values(
            |p: Particle| p@,
        ) == old(table)@.rows,
        req is GetParticle ==> final(table)@ == old(table)@ && resp.status == 200
            && resp.body is MaybeOne && ((resp.body->MaybeOne_0 is Some) == contains_id(
            old(table)@.rows,
            req->GetParticle_0 as int,
        )) && (resp.body->MaybeOne_0 is Some ==> Some(resp.body->MaybeOne_0->Some_0@)
            == spec_get(old(table)@, req->GetParticle_0 as int)),
        req is CreateParticle ==> final(table)@ == spec_insert(
            old(table)@,
            req->CreateParticle_0@,
            now as int,
        ) && resp.status == 200 && resp.body is One && resp.body->One_0@ == new_model(
            old(table)@.next_id,
            req->CreateParticle_0@,
            now as int,
        ),
        req is UpdateParticle ==> final(table)@ == spec_update(
            old(table)@,
            req->UpdateParticle_0 as int,
            req->UpdateParticle_1@,
            now as int,
        ) && (contains_id(old(table)@.rows, req->UpdateParticle_0 as int) ==> resp.status == 200
            && resp.body is One && resp.body->One_0@ == updated_model(
            spec_get(old(table)@, req->UpdateParticle_0 as int)->Some_0,
            req->UpdateParticle_1@,
            now as int,
        )) && (!contains_id(old(table)@.rows, req->UpdateParticle_0 as int) ==> resp.status
            == 500 && resp.body is ErrorText && resp.body->ErrorText_0@
            == StorageError::NotFound.spec_message()),
        req is DeleteParticle ==> final(table)@ == spec_delete(
            old(table)@,
            req->DeleteParticle_0 as int,
        ) && resp.status == 200 && resp.body is Count && (contains_id(
            old(table)@.rows,
            req->DeleteParticle_0 as int,
        ) ==> resp.body->Count_0 == 1) && (!contains_id(
            old(table)@.rows,
            req->DeleteParticle_0 as int,
        ) ==> resp.body->Count_0 == 0),
{
    match req {
        Request::ListParticles => {
            let items = table.find_all_particles();
            Response { status: 200, body: Body::ParticleList(items) }
        },
        Request::GetParticle(id) => {
            let item = table.find_particle_by_id(id);
            Response { status: 200, body: Body::MaybeOne(item) }
        },
        Request::CreateParticle(payload) => {
            let item = table.add_particle_at(&payload, now);
            Response { status: 200, body: Body::One(item) }
        },
        Request::UpdateParticle(id, payload) => {
            match table.update_particle_at(id, &payload, now) {
                Ok(item) => Response { status: 200, body: Body::One(item) },
                Err(e) => {
                    let text = e.message();
                    Response { status: 500, body: Body::ErrorText(String::from_str(text)) }
                },
            }
        },
        Request::DeleteParticle(id) => {
            let count = table.delete_particle(id);
            Response { status: 200, body: Body::Count(count) }
        },
    }
}

} // verus!
