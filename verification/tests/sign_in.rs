use gigachat::auth::twitch_token_confirmable;
use gigachat::model::AuthTokens;

fn s(x: &str) -> String {
    x.to_string()
}

#[test]
fn pasted_address_is_cut_to_the_token() {
    let mut t = AuthTokens::default();
    t.twitch_auth_token = s("#access_token=abc123&scope=chat%3Aread&token_type=bearer");
    t.show_twitch_auth_token = true;
    assert!(twitch_token_confirmable(&t.twitch_auth_token));
    assert_eq!(t.confirm(), (true, false));
    assert_eq!(t.twitch_auth_token, s("abc123"));
    assert!(!t.show_twitch_auth_token);
}

#[test]
fn first_token_on_a_line_is_taken() {
    let mut t = AuthTokens::default();
    t.twitch_auth_token = s("access_token=one\naccess_token=two&x=1");
    t.show_twitch_auth_token = true;
    assert!(t.confirm().0);
    assert_eq!(t.twitch_auth_token, s("two"));
}

#[test]
fn empty_capture_keeps_the_field_open() {
    let mut t = AuthTokens::default();
    t.twitch_auth_token = s("#access_token=&scope=x");
    t.show_twitch_auth_token = true;
    t.confirm();
    assert_eq!(t.twitch_auth_token, s(""));
    assert!(t.show_twitch_auth_token);
}

#[test]
fn plain_tokens_are_kept() {
    let mut t = AuthTokens::default();
    t.twitch_auth_token = s("oauthtoken");
    t.dgg_auth_token = s("key");
    t.show_dgg_auth_token = true;
    assert_eq!(t.confirm(), (false, true));
    assert_eq!(t.twitch_auth_token, s("oauthtoken"));
    assert!(!t.show_dgg_auth_token);
}

#[test]
fn address_without_token_cannot_be_confirmed() {
    assert!(!twitch_token_confirmable("#scope=chat"));
    assert!(!twitch_token_confirmable("access_token=abc"));
    assert!(twitch_token_confirmable("plain"));
}

#[test]
fn starting_sign_ins() {
    let mut t = AuthTokens::default();
    t.twitch_auth_token = s("old");
    let url = t.start_twitch_login();
    assert!(url.starts_with("https://id.twitch.tv/oauth2/authorize?client_id="));
    assert_eq!(t.twitch_auth_token, s(""));
    assert!(t.show_twitch_auth_token);
    t.dgg_auth_token = s("old");
    assert_eq!(t.start_dgg_login(), s("https://www.destiny.gg/profile/developer"));
    assert_eq!(t.dgg_auth_token, s(""));
    assert!(t.show_dgg_auth_token);
}

#[test]
fn saved_twitch_login_needs_name_and_token() {
    let mut t = AuthTokens::default();
    assert!(!t.twitch_login_set());
    t.twitch_username = s("me");
    assert!(!t.twitch_login_set());
    t.twitch_auth_token = s("tok");
    assert!(t.twitch_login_set());
}
