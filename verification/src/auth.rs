use vstd::prelude::*;
use crate::digest::{digest_str, spec_digest};
use crate::RunError;

verus! {

/// The fixed shared-secret string baked into the client; it ends every
/// signature input.
pub open spec fn spec_salt() -> Seq<char> {
    "itauVfnexHiRigZ6"@
}

/// The salt as an exec string.
pub fn salt() -> (r: &'static str)
    ensures
        r@ == spec_salt(),
{
    "itauVfnexHiRigZ6"
}

/// What the login signature is computed over: username, password, the fixed
/// entrance code and the salt, joined in order with no separator.
pub open spec fn spec_login_sign_input(username: Seq<char>, password: Seq<char>) -> Seq<char> {
    username + password + "1"@ + spec_salt()
}

/// The signDigital field of a login request.
pub fn login_sign(username: &str, password: &str) -> (r: String)
    ensures
        r@ == spec_digest(spec_login_sign_input(username@, password@)),
        r@.len() == 40,
{
    let mut joined = username.to_owned();
    joined.append(password);
    joined.append("1");
    joined.append(salt());
    proof {
        assert(joined@ =~= spec_login_sign_input(username@, password@));
    }
    digest_str(joined.as_str())
}

/// The four fields of a login request body.
pub struct LoginRequest {
    pub entrance: String,
    pub user_name: String,
    pub password: String,
    pub sign_digital: String,
}

/// Builds the login request: the fixed entrance code, the credentials
/// unchanged, and the keyed signature over them.
pub fn build_login_request(username: &str, password: &str) -> (r: LoginRequest)
    ensures
        r.entrance@ == "1"@,
        r.user_name@ == username@,
        r.password@ == password@,
        r.sign_digital@ == spec_digest(spec_login_sign_input(username@, password@)),
        r.sign_digital@.len() == 40,
{
    LoginRequest {
        entrance: "1".to_owned(),
        user_name: username.to_owned(),
        password: password.to_owned(),
        sign_digital: login_sign(username, password),
    }
}

/// Who is logged in: student id, bearer token and organization id, captured
/// from a successful login response and immutable thereafter.
pub struct SessionIdentity {
    pub id: String,
    pub token: String,
    pub organization: String,
}

impl SessionIdentity {
    /// Stores the id, access token and campus id of a login response.
    pub fn new(id: String, token: String, organization: String) -> (r: SessionIdentity)
        ensures
            r.id@ == id@,
            r.token@ == token@,
            r.organization@ == organization@,
    {
        SessionIdentity { id, token, organization }
    }
}

/// How a login status is read: any explicit client-error status means bad
/// credentials; a server-error status is a plain transport failure; all
/// remaining statuses let the login proceed.
pub fn classify_login_status(status: u16) -> (r: Result<(), RunError>)
    ensures
        400 <= status < 500 ==> r == Err::<(), RunError>(RunError::InvalidCredentials),
        500 <= status < 600 ==> r == Err::<(), RunError>(RunError::RequestFailed(status)),
        !(400 <= status < 600) ==> r == Ok::<(), RunError>(()),
{
    if 400 <= status && status < 500 {
        Err(RunError::InvalidCredentials)
    } else if 500 <= status && status < 600 {
        Err(RunError::RequestFailed(status))
    } else {
        Ok(())
    }
}

/// How every other authenticated call's status is read: any error status
/// aborts the operation with the status attached.
pub fn classify_status(status: u16) -> (r: Result<(), RunError>)
    ensures
        400 <= status < 600 ==> r == Err::<(), RunError>(RunError::RequestFailed(status)),
        !(400 <= status < 600) ==> r == Ok::<(), RunError>(()),
{
    if 400 <= status && status < 600 {
        Err(RunError::RequestFailed(status))
    } else {
        Ok(())
    }
}

} // verus!
