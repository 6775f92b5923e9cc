//! Paths of the server's endpoints, relative to the instance's base URL.

use vstd::prelude::*;

verus! {

pub const LOGIN_URL: &'static str = "/auth/login.json";

pub const VERIFY_URL: &'static str = "/auth/verify.json";

pub const ME_URL: &'static str = "/users/me.json";

pub const RESOURCES_URL: &'static str = "/resources.json";

pub const RESOURCE_URL: &'static str = "/resources/{}.json";

pub const SECRET_URL: &'static str = "/secrets/resource/{}.json";

pub const USER_URL: &'static str = "/users/{}.json";

pub const ACTION_URL: &'static str = "/actionlog/resource/{}.json?page={}&limit={}";

} // verus!
