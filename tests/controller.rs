use password_vault::controller::{handle_master_password, handle_website_credentials, Key};
use password_vault::kdf::{Argon2Params, Argon2Variant, Argon2Version, KdfParams, SALT_LEN};
use password_vault::session::{App, CurrentScreen, CurrentlyEditingCredentialField};

fn params() -> KdfParams {
    KdfParams::Argon2(Argon2Params {
        variant: Argon2Variant::Argon2id,
        version: Argon2Version::V0x13,
        m_cost: 64,
        t_cost: 1,
        p_cost: 1,
        output_len: 32,
        salt: vec![9; SALT_LEN],
    })
}

fn app_with_two_emails() -> App {
    let mut app = App::new();
    for e in ["1@a.org", "2@a.org"] {
        app.website_input = "a.org".to_string();
        app.email_input = e.to_string();
        app.save_credential();
    }
    app.load_emails();
    app
}

#[test]
fn typing_and_erasing_the_master_password() {
    let mut app = App::new();
    assert_eq!(handle_master_password(&mut app, Key::Char('a'), None), None);
    handle_master_password(&mut app, Key::Char('b'), None);
    assert_eq!(app.master_password_input, "ab");
    handle_master_password(&mut app, Key::Backspace, None);
    assert_eq!(app.master_password_input, "a");
    handle_master_password(&mut app, Key::Backspace, None);
    handle_master_password(&mut app, Key::Backspace, None);
    assert_eq!(app.master_password_input, "");
    assert_eq!(handle_master_password(&mut app, Key::Esc, None), Some(false));
}

#[test]
fn enter_unlocks_with_the_right_password_only() {
    let mut owner = App::new();
    owner.set_master_key(params(), "pw").unwrap();
    owner.website_input = "a.org".to_string();
    owner.email_input = "1@a.org".to_string();
    owner.save_credential();

    let mut app = App::new();
    app.current_screen = CurrentScreen::MasterPasswordRequiredScreen;
    app.master_password_input = "bad".to_string();
    handle_master_password(&mut app, Key::Enter, Some(owner.save_changes().ok().unwrap()));
    assert_eq!(app.current_screen, CurrentScreen::MasterPasswordRequiredScreen);
    assert!(app.master_password_input.is_empty());

    app.master_password_input = "pw".to_string();
    handle_master_password(&mut app, Key::Enter, Some(owner.save_changes().ok().unwrap()));
    assert_eq!(app.current_screen, CurrentScreen::MainCredentialScreen);
    assert_eq!(app.websites, vec!["a.org".to_string()]);
}

#[test]
fn website_screen_moves_through_emails() {
    let mut app = app_with_two_emails();
    handle_website_credentials(&mut app, Key::Up);
    assert_eq!(app.selected_email_index, 0);
    handle_website_credentials(&mut app, Key::Down);
    assert_eq!(app.selected_email_index, 1);
    handle_website_credentials(&mut app, Key::Tab);
    assert_eq!(app.selected_email_index, 1);
    handle_website_credentials(&mut app, Key::BackTab);
    assert_eq!(app.selected_email_index, 0);
}

#[test]
fn website_screen_opens_adds_and_leaves() {
    let mut app = app_with_two_emails();
    assert_eq!(handle_website_credentials(&mut app, Key::Enter), None);
    assert_eq!(app.current_screen, CurrentScreen::SpecificCredentialScreen);
    assert_eq!(app.currently_editing_credential_field, Some(CurrentlyEditingCredentialField::Username));
    assert_eq!(app.email_input, "1@a.org");
    handle_website_credentials(&mut app, Key::Char('q'));
    assert_eq!(app.current_screen, CurrentScreen::MainCredentialScreen);
    assert!(app.email_input.is_empty());
    handle_website_credentials(&mut app, Key::Char('n'));
    assert_eq!(app.currently_editing_credential_field, Some(CurrentlyEditingCredentialField::Email));
    assert_eq!(app.website_input, "a.org");
}

#[test]
fn website_screen_backspace_deletes_selected() {
    let mut app = app_with_two_emails();
    handle_website_credentials(&mut app, Key::Backspace);
    assert_eq!(app.emails, vec!["2@a.org".to_string()]);
    assert_eq!(app.credentials.len(), 1);
}
