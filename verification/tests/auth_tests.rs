use spotify_tracker::auth::{SpotifyAuth, SpotifyToken, TokenAction, TokenEvent, TokenFlow};

fn token(access: &str, refresh: Option<&str>) -> SpotifyToken {
    SpotifyToken {
        access_token: access.to_string(),
        token_type: "Bearer".to_string(),
        scope: "user-library-read".to_string(),
        expires_in: 3600,
        refresh_token: refresh.map(|s| s.to_string()),
    }
}

fn auth() -> SpotifyAuth {
    SpotifyAuth {
        client_id: "cid".to_string(),
        client_secret: "secret".to_string(),
        redirect_uri: "http://localhost:8080".to_string(),
    }
}

#[test]
fn refresh_keeps_old_refresh_token_when_none_is_sent() {
    let mut t = token("old", Some("keep-me"));
    t.token_type = "bearer".to_string();
    let mut new_data = token("new", None);
    new_data.expires_in = 10;
    new_data.scope = "s2".to_string();
    t.update_from_refresh(new_data);
    assert_eq!(t.access_token, "new");
    assert_eq!(t.expires_in, 10);
    assert_eq!(t.scope, "s2");
    assert_eq!(t.token_type, "bearer");
    assert_eq!(t.refresh_token.as_deref(), Some("keep-me"));
}

#[test]
fn refresh_takes_new_refresh_token_when_sent() {
    let mut t = token("old", Some("old-refresh"));
    t.update_from_refresh(token("new", Some("new-refresh")));
    assert_eq!(t.access_token, "new");
    assert_eq!(t.refresh_token.as_deref(), Some("new-refresh"));
}

#[test]
fn authorize_url_lists_scopes_and_redirect() {
    assert_eq!(
        auth().get_authorize_url(),
        "https://accounts.spotify.com/authorize?client_id=cid&response_type=code&scope=user-library-read%20user-follow-read&redirect_uri=http://localhost:8080&show_dialog=true"
    );
}

#[test]
fn code_exchange_request_form() {
    let r = auth().code_exchange_request("abc");
    assert_eq!(r.url, "https://accounts.spotify.com/api/token");
    let form: Vec<(&str, &str)> = r.form.iter().map(|(a, b)| (a.as_str(), b.as_str())).collect();
    assert_eq!(
        form,
        vec![
            ("grant_type", "authorization_code"),
            ("code", "abc"),
            ("redirect_uri", "http://localhost:8080"),
            ("client_id", "cid"),
            ("client_secret", "secret"),
        ]
    );
}

#[test]
fn refresh_request_form() {
    let r = auth().refresh_request("rt");
    assert_eq!(r.url, "https://accounts.spotify.com/api/token");
    let form: Vec<(&str, &str)> = r.form.iter().map(|(a, b)| (a.as_str(), b.as_str())).collect();
    assert_eq!(
        form,
        vec![
            ("grant_type", "refresh_token"),
            ("refresh_token", "rt"),
            ("client_id", "cid"),
            ("client_secret", "secret"),
        ]
    );
}

#[test]
fn token_flow_without_saved_tokens_asks_for_code() {
    let a = auth();
    let (flow, action) = a.token_step(TokenFlow::Start, TokenEvent::SavedLoaded(None));
    assert!(matches!(flow, TokenFlow::AwaitingCode));
    match action {
        TokenAction::AskForCode(url) => assert_eq!(url, a.get_authorize_url()),
        _ => panic!("expected a login prompt"),
    }
    let (flow, action) = a.token_step(flow, TokenEvent::CodeTyped("  the-code \n".to_string()));
    assert!(matches!(flow, TokenFlow::ExchangingCode));
    match action {
        TokenAction::ExchangeCode(code) => assert_eq!(code, "the-code"),
        _ => panic!("expected a code exchange"),
    }
    let (flow, action) = a.token_step(flow, TokenEvent::CodeExchanged(token("fresh", Some("r"))));
    assert!(matches!(flow, TokenFlow::Finished));
    match action {
        TokenAction::SaveAndUse(t) => assert_eq!(t.access_token, "fresh"),
        _ => panic!("expected the new token to be saved"),
    }
}

#[test]
fn token_flow_uses_valid_saved_token() {
    let a = auth();
    let (flow, action) = a.token_step(TokenFlow::Start, TokenEvent::SavedLoaded(Some(token("saved", Some("r")))));
    match action {
        TokenAction::CheckAccess(access) => assert_eq!(access, "saved"),
        _ => panic!("expected a check of the saved token"),
    }
    let (flow, action) = a.token_step(flow, TokenEvent::SavedChecked(true));
    assert!(matches!(flow, TokenFlow::Finished));
    match action {
        TokenAction::Use(t) => assert_eq!(t.access_token, "saved"),
        _ => panic!("expected the saved token to be used"),
    }
}

#[test]
fn token_flow_refreshes_refused_token() {
    let a = auth();
    let (flow, _) = a.token_step(TokenFlow::Start, TokenEvent::SavedLoaded(Some(token("saved", Some("r1")))));
    let (flow, action) = a.token_step(flow, TokenEvent::SavedChecked(false));
    match action {
        TokenAction::Refresh(rt) => assert_eq!(rt, "r1"),
        _ => panic!("expected a refresh"),
    }
    let (flow, action) = a.token_step(flow, TokenEvent::RefreshAnswered(Some(token("renewed", None))));
    assert!(matches!(flow, TokenFlow::Finished));
    match action {
        TokenAction::SaveAndUse(t) => {
            assert_eq!(t.access_token, "renewed");
            assert_eq!(t.refresh_token.as_deref(), Some("r1"));
        }
        _ => panic!("expected the refreshed token to be saved"),
    }
}

#[test]
fn token_flow_falls_back_to_login_when_refresh_fails() {
    let a = auth();
    let (flow, _) = a.token_step(TokenFlow::Start, TokenEvent::SavedLoaded(Some(token("saved", Some("r1")))));
    let (flow, _) = a.token_step(flow, TokenEvent::SavedChecked(false));
    let (flow, action) = a.token_step(flow, TokenEvent::RefreshAnswered(None));
    assert!(matches!(flow, TokenFlow::AwaitingCode));
    assert!(matches!(action, TokenAction::AskForCode(_)));
}
