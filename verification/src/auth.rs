//! The account a game is launched with, as far as the launch arguments need it.
use vstd::prelude::*;

verus! {

/// How an account logs in.
#[derive(Debug, Clone, Copy, PartialEq, Eq, Structural)]
pub enum AuthType {
    /// No login.
    Offline,
    /// A Microsoft account.
    OAuth,
    /// The Nide8 unified pass.
    Nide8,
    /// An authlib-injector server.
    AuthlibInjector,
    /// The LittleSkin server.
    LittleSkin,
    /// A self-hosted LittleSkin server.
    SelfLittleSkin,
}

/// An account that has logged in.
#[derive(Debug)]
pub struct LoginObj {
    pub auth_type: AuthType,
    pub user_name: String,
    pub uuid: String,
    pub access_token: String,
    /// The server of the account, where its login type has one.
    pub text1: Option<String>,
}

} // verus!
