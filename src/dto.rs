//! Request bodies and path parameters of the service, as plain data.
use vstd::prelude::*;

use crate::model::{RecordId, User};

verus! {

/// Registration request.
#[derive(Clone, Debug)]
pub struct CreateUserBody {
    pub first_name: String,
    pub last_name: String,
    pub password: String,
    pub email_address: String,
    pub is_patient: bool,
}

impl CreateUserBody {
    /// The account this request registers, under `id`, storing
    /// `hashed_password` in place of the plain password.
    pub fn into_user(self, id: RecordId, hashed_password: String) -> (r: User)
        ensures
            r.id == id,
            r.first_name == self.first_name,
            r.last_name == self.last_name,
            r.email_address == self.email_address,
            r.hashed_password == hashed_password,
            r.is_patient == self.is_patient,
            r.caregivers@.len() == 0,
    {
        User::from(id, self.first_name, self.last_name, self.email_address, hashed_password, self.is_patient)
    }
}

/// Login request.
#[derive(Clone, Debug)]
pub struct LoginUserBody {
    pub email_address: String,
    pub password: String,
}

/// Registration request of the user endpoint.
#[derive(Clone, Debug)]
pub struct CreateUserPayload {
    pub first_name: String,
    pub last_name: String,
    pub email_address: String,
    pub password: String,
    pub is_patient: bool,
}

/// The invitation token named in a redemption request.
#[derive(Clone, Debug)]
pub struct CaregiverTokenPath {
    pub token: String,
}

/// A medication to add to the tracker.
#[derive(Clone, Debug)]
pub struct AddMedicationPayload {
    pub medication_name: String,
    pub dose: String,
    pub timing: String,
}

/// New values for a tracked medication.
#[derive(Clone, Debug)]
pub struct UpdateMedicationPayload {
    pub medication_name: String,
    pub dose: String,
    pub timing: String,
}

/// Scaffold hook of the service's first endpoint; it has nothing to do.
pub fn foo() {
}

} // verus!
