//! Spotify OAuth2: the saved token, the login URL, the token requests and
//! the steps that obtain a usable access token.

use vstd::prelude::*;
use vstd::pervasive::unreached;
use vstd::string::*;

use crate::text::{encode_spaces, spaces_encoded, trim_whitespace, trimmed};

verus! {

/// The tokens Spotify hands out, as saved between runs.
#[derive(Debug)]
pub struct SpotifyToken {
    pub access_token: String,
    pub token_type: String,
    pub scope: String,
    pub expires_in: i32,
    pub refresh_token: Option<String>,
}

/// The registered application's credentials.
pub struct SpotifyAuth {
    pub client_id: String,
    pub client_secret: String,
    pub redirect_uri: String,
}

/// `current` after taking the refresh response `new_data`: the new access
/// token, expiry and scope; the token type kept; the refresh token replaced
/// only when the response carries one.
pub open spec fn refreshed(current: SpotifyToken, new_data: SpotifyToken) -> SpotifyToken {
    SpotifyToken {
        access_token: new_data.access_token,
        token_type: current.token_type,
        scope: new_data.scope,
        expires_in: new_data.expires_in,
        refresh_token: if new_data.refresh_token is Some {
            new_data.refresh_token
        } else {
            current.refresh_token
        },
    }
}

/// A refresh never loses the refresh token: when the current token holds
/// one, so does the refreshed token, whatever the response carries.
pub proof fn law_refresh_keeps_a_refresh_token(current: SpotifyToken, new_data: SpotifyToken)
    requires
        current.refresh_token is Some,
    ensures
        refreshed(current, new_data).refresh_token is Some,
{
}

impl SpotifyToken {
    /// Takes the fields of a refresh response, keeping the current refresh
    /// token when the response carries none.
    pub fn update_from_refresh(&mut self, new_data: SpotifyToken)
        ensures
            *final(self) == refreshed(*old(self), new_data),
    {
        self.access_token = new_data.access_token;
        self.expires_in = new_data.expires_in;
        self.scope = new_data.scope;
        if new_data.refresh_token.is_some() {
            self.refresh_token = new_data.refresh_token;
        }
    }
}

/// The scopes the login asks for.
pub const AUTH_SCOPES: &'static str = "user-library-read user-follow-read";

/// Spotify's token endpoint: it exchanges an authorization code, or a
/// refresh token, for tokens.
pub const TOKEN_ENDPOINT: &'static str = "https://accounts.spotify.com/api/token";

/// The login URL for a client id and redirect URI.
pub open spec fn authorize_url(client_id: Seq<char>, redirect_uri: Seq<char>) -> Seq<char> {
    "https://accounts.spotify.com/authorize?client_id="@ + client_id + "&response_type=code&scope="@
        + spaces_encoded(AUTH_SCOPES@) + "&redirect_uri="@ + redirect_uri
        + "&show_dialog=true"@
}

/// A form-encoded POST to make.
pub struct TokenRequest {
    pub url: String,
    pub form: Vec<(String, String)>,
}

/// The views of a form's name/value pairs.
pub open spec fn form_view(form: Seq<(String, String)>) -> Seq<(Seq<char>, Seq<char>)> {
    form.map_values(|p: (String, String)| (p.0@, p.1@))
}

fn pair(name: &str, value: &str) -> (r: (String, String))
    ensures
        r.0@ == name@,
        r.1@ == value@,
{
    (String::from_str(name), String::from_str(value))
}

impl SpotifyAuth {
    /// The Spotify authorization URL that prompts the user to log in, asking
    /// for the `user-library-read` and `user-follow-read` scopes.
    pub fn get_authorize_url(&self) -> (r: String)
        ensures
            r@ == authorize_url(self.client_id@, self.redirect_uri@),
    {
        let mut r = String::from_str("https://accounts.spotify.com/authorize?client_id=");
        r.append(self.client_id.as_str());
        r.append("&response_type=code&scope=");
        let scopes = encode_spaces(AUTH_SCOPES);
        r.append(scopes.as_str());
        r.append("&redirect_uri=");
        r.append(self.redirect_uri.as_str());
        r.append("&show_dialog=true");
        r
    }

    /// The request that exchanges the authorization code `code` for tokens.
    pub fn code_exchange_request(&self, code: &str) -> (r: TokenRequest)
        ensures
            r.url@ == TOKEN_ENDPOINT@,
            form_view(r.form@) == seq![
                ("grant_type"@, "authorization_code"@),
                ("code"@, code@),
                ("redirect_uri"@, self.redirect_uri@),
                ("client_id"@, self.client_id@),
                ("client_secret"@, self.client_secret@),
            ],
    {
        let mut form: Vec<(String, String)> = Vec::new();
        form.push(pair("grant_type", "authorization_code"));
        form.push(pair("code", code));
        form.push(pair("redirect_uri", self.redirect_uri.as_str()));
        form.push(pair("client_id", self.client_id.as_str()));
        form.push(pair("client_secret", self.client_secret.as_str()));
        let r = TokenRequest { url: String::from_str(TOKEN_ENDPOINT), form };
        assert(form_view(r.form@) =~= seq![
            ("grant_type"@, "authorization_code"@),
            ("code"@, code@),
            ("redirect_uri"@, self.redirect_uri@),
            ("client_id"@, self.client_id@),
            ("client_secret"@, self.client_secret@),
        ]);
        r
    }

    /// The request to Spotify's token endpoint that trades `refresh_token`
    /// for a fresh access token.
    pub fn refresh_request(&self, refresh_token: &str) -> (r: TokenRequest)
        ensures
            r.url@ == TOKEN_ENDPOINT@,
            form_view(r.form@) == seq![
                ("grant_type"@, "refresh_token"@),
                ("refresh_token"@, refresh_token@),
                ("client_id"@, self.client_id@),
                ("client_secret"@, self.client_secret@),
            ],
    {
        let mut form: Vec<(String, String)> = Vec::new();
        form.push(pair("grant_type", "refresh_token"));
        form.push(pair("refresh_token", refresh_token));
        form.push(pair("client_id", self.client_id.as_str()));
        form.push(pair("client_secret", self.client_secret.as_str()));
        let r = TokenRequest { url: String::from_str(TOKEN_ENDPOINT), form };
        assert(form_view(r.form@) =~= seq![
            ("grant_type"@, "refresh_token"@),
            ("refresh_token"@, refresh_token@),
            ("client_id"@, self.client_id@),
            ("client_secret"@, self.client_secret@),
        ]);
        r
    }
}

/// Where obtaining an access token stands.
pub enum TokenFlow {
    /// Nothing done yet: the saved tokens are to be loaded.
    Start,
    /// Saved tokens were found; their access token is being checked.
    CheckingSaved(SpotifyToken),
    /// The saved access token was refused; its refresh token is in use.
    RefreshingSaved(SpotifyToken),
    /// The user is asked to log in and paste the code.
    AwaitingCode,
    /// The pasted code is being exchanged for tokens.
    ExchangingCode,
    /// A token has been handed out.
    Finished,
}

/// What came back from the outside work of a step.
pub enum TokenEvent {
    /// The saved tokens, if any could be read.
    SavedLoaded(Option<SpotifyToken>),
    /// Whether Spotify accepted the saved access token.
    SavedChecked(bool),
    /// The refresh answer, `None` when the refresh failed.
    RefreshAnswered(Option<SpotifyToken>),
    /// The line the user typed.
    CodeTyped(String),
    /// The tokens the code was exchanged for.
    CodeExchanged(SpotifyToken),
}

/// The outside work to do next.
pub enum TokenAction {
    /// Check this access token against the API.
    CheckAccess(String),
    /// Refresh with this refresh token.
    Refresh(String),
    /// Show this login URL and read a code.
    AskForCode(String),
    /// Exchange this code for tokens.
    ExchangeCode(String),
    /// Save this token to disk, then use it.
    SaveAndUse(SpotifyToken),
    /// Use this token as it is.
    Use(SpotifyToken),
}

/// Whether `event` is an answer to the work that `flow` waits for. A saved
/// token that was refused must carry a refresh token: without one the
/// flow cannot go on.
pub open spec fn token_event_fits(flow: TokenFlow, event: TokenEvent) -> bool {
    match (flow, event) {
        (TokenFlow::Start, TokenEvent::SavedLoaded(_)) => true,
        (TokenFlow::CheckingSaved(t), TokenEvent::SavedChecked(ok)) => ok || t.refresh_token is Some,
        (TokenFlow::RefreshingSaved(_), TokenEvent::RefreshAnswered(_)) => true,
        (TokenFlow::AwaitingCode, TokenEvent::CodeTyped(_)) => true,
        (TokenFlow::ExchangingCode, TokenEvent::CodeExchanged(_)) => true,
        _ => false,
    }
}

/// The next state and action of the token flow.
pub open spec fn token_step_result(
    auth: SpotifyAuth,
    flow: TokenFlow,
    event: TokenEvent,
    next: TokenFlow,
    action: TokenAction,
) -> bool {
    match (flow, event) {
        (TokenFlow::Start, TokenEvent::SavedLoaded(None)) => {
            &&& next is AwaitingCode
            &&& action matches TokenAction::AskForCode(url)
            &&& url@ == authorize_url(auth.client_id@, auth.redirect_uri@)
        },
        (TokenFlow::Start, TokenEvent::SavedLoaded(Some(t))) => {
            &&& next == TokenFlow::CheckingSaved(t)
            &&& action matches TokenAction::CheckAccess(a)
            &&& a@ == t.access_token@
        },
        (TokenFlow::CheckingSaved(t), TokenEvent::SavedChecked(true)) => {
            &&& next is Finished
            &&& action == TokenAction::Use(t)
        },
        (TokenFlow::CheckingSaved(t), TokenEvent::SavedChecked(false)) => {
            &&& next == TokenFlow::RefreshingSaved(t)
            &&& action matches TokenAction::Refresh(rt)
            &&& rt@ == t.refresh_token->0@
        },
        (TokenFlow::RefreshingSaved(t), TokenEvent::RefreshAnswered(Some(n))) => {
            &&& next is Finished
            &&& action == TokenAction::SaveAndUse(refreshed(t, n))
        },
        (TokenFlow::RefreshingSaved(_), TokenEvent::RefreshAnswered(None)) => {
            &&& next is AwaitingCode
            &&& action matches TokenAction::AskForCode(url)
            &&& url@ == authorize_url(auth.client_id@, auth.redirect_uri@)
        },
        (TokenFlow::AwaitingCode, TokenEvent::CodeTyped(line)) => {
            &&& next is ExchangingCode
            &&& action matches TokenAction::ExchangeCode(code)
            &&& code@ == trimmed(line@)
        },
        (TokenFlow::ExchangingCode, TokenEvent::CodeExchanged(t)) => {
            &&& next is Finished
            &&& action == TokenAction::SaveAndUse(t)
        },
        _ => false,
    }
}

impl SpotifyAuth {
    /// One step of obtaining a valid access token: saved tokens are checked,
    /// refreshed when refused, and a manual login is asked for when there
    /// are none or the refresh fails.
    pub fn token_step(&self, flow: TokenFlow, event: TokenEvent) -> (r: (TokenFlow, TokenAction))
        requires
            token_event_fits(flow, event),
        ensures
            token_step_result(*self, flow, event, r.0, r.1),
    {
        match flow {
            TokenFlow::Start => match event {
                TokenEvent::SavedLoaded(Some(t)) => {
                    let access = t.access_token.clone();
                    (TokenFlow::CheckingSaved(t), TokenAction::CheckAccess(access))
                },
                _ => (TokenFlow::AwaitingCode, TokenAction::AskForCode(self.get_authorize_url())),
            },
            TokenFlow::CheckingSaved(t) => match event {
                TokenEvent::SavedChecked(true) => (TokenFlow::Finished, TokenAction::Use(t)),
                _ => {
                    let rt = match &t.refresh_token {
                        Some(rt) => rt.clone(),
                        None => String::new(),
                    };
                    (TokenFlow::RefreshingSaved(t), TokenAction::Refresh(rt))
                },
            },
            TokenFlow::RefreshingSaved(t) => match event {
                TokenEvent::RefreshAnswered(Some(n)) => {
                    let mut t = t;
                    t.update_from_refresh(n);
                    (TokenFlow::Finished, TokenAction::SaveAndUse(t))
                },
                _ => (TokenFlow::AwaitingCode, TokenAction::AskForCode(self.get_authorize_url())),
            },
            TokenFlow::AwaitingCode => match event {
                TokenEvent::CodeTyped(line) => {
                    let code = String::from_str(trim_whitespace(line.as_str()));
                    (TokenFlow::ExchangingCode, TokenAction::ExchangeCode(code))
                },
                _ => unreached(),
            },
            TokenFlow::ExchangingCode => match event {
                TokenEvent::CodeExchanged(t) => (TokenFlow::Finished, TokenAction::SaveAndUse(t)),
                _ => unreached(),
            },
            TokenFlow::Finished => unreached(),
        }
    }
}

} // verus!
