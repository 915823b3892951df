//! Record types of the particle table and their mathematical models.
//!
//! Timestamps are held as microseconds since the epoch, without a time zone,
//! matching a `timestamp` column with microsecond precision.

use vstd::prelude::*;

verus! {

/// Mathematical model of one stored particle row.
#[verifier::ext_equal]
pub ghost struct ParticleModel {
    pub part_id: int,
    pub part_type: Seq<char>,
    pub part_name: Seq<char>,
    pub mass: int,
    pub charge: Seq<char>,
    pub spin: Seq<char>,
    pub created_at: int,
    pub updated_at: int,
}

/// Mathematical model of a create/update payload: the five business fields,
/// with no id and no timestamps.
#[verifier::ext_equal]
pub ghost struct PayloadModel {
    pub part_type: Seq<char>,
    pub part_name: Seq<char>,
    pub mass: int,
    pub charge: Seq<char>,
    pub spin: Seq<char>,
}

/// A persisted particle row: primary key, the five business fields, and the
/// two bookkeeping timestamps.
pub struct Particle {
    pub part_id: i32,
    pub part_type: String,
    pub part_name: String,
    pub mass: i64,
    pub charge: String,
    pub spin: String,
    pub created_at: i64,
    pub updated_at: i64,
}

impl View for Particle {
    type V = ParticleModel;

    open spec fn view(&self) -> ParticleModel {
        ParticleModel {
            part_id: self.part_id as int,
            part_type: self.part_type@,
            part_name: self.part_name@,
            mass: self.mass as int,
            charge: self.charge@,
            spin: self.spin@,
            created_at: self.created_at as int,
            updated_at: self.updated_at as int,
        }
    }
}

impl Clone for Particle {
    fn clone(&self) -> (r: Self)
        ensures
            r == *self,
    {
        Particle {
            part_id: self.part_id,
            part_type: self.part_type.clone(),
            part_name: self.part_name.clone(),
            mass: self.mass,
            charge: self.charge.clone(),
            spin: self.spin.clone(),
            created_at: self.created_at,
            updated_at: self.updated_at,
        }
    }
}

/// The transient request payload: the five business fields supplied by a
/// create or update call.
pub struct ParticlePayLoad {
    pub part_type: String,
    pub part_name: String,
    pub mass: i64,
    pub charge: String,
    pub spin: String,
}

impl View for ParticlePayLoad {
    type V = PayloadModel;

    open spec fn view(&self) -> PayloadModel {
        PayloadModel {
            part_type: self.part_type@,
            part_name: self.part_name@,
            mass: self.mass as int,
            charge: self.charge@,
            spin: self.spin@,
        }
    }
}

impl Clone for ParticlePayLoad {
    fn clone(&self) -> (r: Self)
        ensures
            r == *self,
    {
        ParticlePayLoad {
            part_type: self.part_type.clone(),
            part_name: self.part_name.clone(),
            mass: self.mass,
            charge: self.charge.clone(),
            spin: self.spin.clone(),
        }
    }
}

/// A row as it stands just before insertion: the payload fields together with
/// the timestamps chosen for it, but no id yet (the table assigns one).
pub struct NewParticle {
    pub part_type: String,
    pub part_name: String,
    pub mass: i64,
    pub charge: String,
    pub spin: String,
    pub created_at: i64,
    pub updated_at: i64,
}

impl NewParticle {
    /// Builds the insertable row from a payload, stamping both timestamps
    /// with the same instant.
    pub fn from_payload(payload: &ParticlePayLoad, now: i64) -> (r: NewParticle)
        ensures
            r.part_type@ == payload.part_type@,
            r.part_name@ == payload.part_name@,
            r.mass == payload.mass,
            r.charge@ == payload.charge@,
            r.spin@ == payload.spin@,
            r.created_at == now,
            r.updated_at == now,
    {
        NewParticle {
            part_type: payload.part_type.clone(),
            part_name: payload.part_name.clone(),
            mass: payload.mass,
            charge: payload.charge.clone(),
            spin: payload.spin.clone(),
            created_at: now,
            updated_at: now,
        }
    }

    /// Attaches the assigned primary key, yielding the persisted row.
    pub fn with_id(self, id: i32) -> (r: Particle)
        ensures
            r@ == (ParticleModel {
                part_id: id as int,
                part_type: self.part_type@,
                part_name: self.part_name@,
                mass: self.mass as int,
                charge: self.charge@,
                spin: self.spin@,
                created_at: self.created_at as int,
                updated_at: self.updated_at as int,
            }),
    {
        Particle {
            part_id: id,
            part_type: self.part_type,
            part_name: self.part_name,
            mass: self.mass,
            charge: self.charge,
            spin: self.spin,
            created_at: self.created_at,
            updated_at: self.updated_at,
        }
    }
}

/// The row that a create with payload `p` at instant `now` persists under
/// id `id`: both timestamps equal `now`.
pub open spec fn new_model(id: int, p: PayloadModel, now: int) -> ParticleModel {
    ParticleModel {
        part_id: id,
        part_type: p.part_type,
        part_name: p.part_name,
        mass: p.mass,
        charge: p.charge,
        spin: p.spin,
        created_at: now,
        updated_at: now,
    }
}

/// The row that an update with payload `p` at instant `now` leaves in place
/// of `row`: all five business fields replaced wholesale, `part_id` and
/// `created_at` untouched, `updated_at` bumped to `now`.
pub open spec fn updated_model(row: ParticleModel, p: PayloadModel, now: int) -> ParticleModel {
    ParticleModel {
        part_id: row.part_id,
        part_type: p.part_type,
        part_name: p.part_name,
        mass: p.mass,
        charge: p.charge,
        spin: p.spin,
        created_at: row.created_at,
        updated_at: now,
    }
}

/// Failure of a storage operation. An update that matches no row surfaces
/// as `NotFound`; the caller maps it to a generic server error, the same as
/// any other storage fault.
#[derive(Debug)]
pub enum StorageError {
    NotFound,
}

impl StorageError {
    /// The error's textual description.
    pub open spec fn spec_message(&self) -> Seq<char> {
        "record not found"@
    }

    pub fn message(&self) -> (s: &'static str)
        ensures
            s@ == self.spec_message(),
    {
        "record not found"
    }
}

} // verus!
