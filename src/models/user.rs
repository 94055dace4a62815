use vstd::prelude::*;

verus! {

/// A registration request.
pub struct NewUser {
    pub email: String,
    pub full_name: String,
    pub password: String,
}

/// A login request.
pub struct LoginUser {
    pub email: String,
    pub password: String,
}

} // verus!
