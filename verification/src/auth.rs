use vstd::prelude::*;

use crate::strutil::push_char;

verus! {

/// The claims carried by a session token.
#[derive(Debug, Clone)]
pub struct Claims {
    /// User id, in decimal
    pub sub: String,
    /// Username
    pub username: String,
    /// Expiration time, in seconds
    pub exp: usize,
}

/// An authenticated user, as the identity layer hands it over.
#[derive(Debug, Clone)]
pub struct AuthenticatedUser {
    pub user_id: i64,
    pub username: String,
}

/// A code-for-token exchange request.
#[derive(Debug)]
pub struct CodeExchangeRequest {
    pub code: String,
}

/// The tokens handed back after an exchange.
#[derive(Debug)]
pub struct TokenResponse {
    /// Session token for this service
    pub access_token: String,
    /// The platform's own access token, when one was issued
    pub discord_access_token: Option<String>,
}

/// A user profile as the chat platform reports it.
#[derive(Debug)]
pub struct DiscordUser {
    pub id: String,
    pub username: String,
    pub avatar: Option<String>,
    pub global_name: Option<String>,
}

/// A user profile as this service reports it.
#[derive(Debug)]
pub struct UserResponse {
    pub user_id: i64,
    pub username: String,
    pub avatar_url: Option<String>,
}

/// The avatar address for a user id and an avatar hash.
pub fn avatar_url_for(user_id: &str, avatar_hash: &str) -> (r: String)
    ensures
        r@ == "https://cdn.discordapp.com/avatars/"@ + user_id@ + seq!['/'] + avatar_hash@
            + ".png"@,
{
    let mut s = String::new();
    s.append("https://cdn.discordapp.com/avatars/");
    s.append(user_id);
    push_char(&mut s, '/');
    s.append(avatar_hash);
    s.append(".png");
    proof {
        assert(Seq::<char>::empty() + "https://cdn.discordapp.com/avatars/"@ + user_id@
            =~= "https://cdn.discordapp.com/avatars/"@ + user_id@);
        assert((("https://cdn.discordapp.com/avatars/"@ + user_id@).push('/'))
            =~= "https://cdn.discordapp.com/avatars/"@ + user_id@ + seq!['/']);
    }
    s
}

} // verus!
