use password_vault::error::VaultError;
use password_vault::kdf::{Argon2Params, Argon2Variant, Argon2Version, KdfParams, SALT_LEN};
use password_vault::session::{App, CurrentScreen, CurrentlyEditingCredentialField};

fn params() -> KdfParams {
    KdfParams::Argon2(Argon2Params {
        variant: Argon2Variant::Argon2id,
        version: Argon2Version::V0x13,
        m_cost: 64,
        t_cost: 1,
        p_cost: 1,
        output_len: 32,
        salt: vec![5; SALT_LEN],
    })
}

fn fill(app: &mut App, w: &str, e: &str, u: &str, p: &str, n: &str) {
    app.website_input = w.to_string();
    app.email_input = e.to_string();
    app.username_input = u.to_string();
    app.password_input = p.to_string();
    app.notes_input = n.to_string();
}

#[test]
fn new_app_starts_empty() {
    let app = App::new();
    assert!(app.websites.is_empty());
    assert!(app.emails.is_empty());
    assert_eq!(app.credentials.len(), 0);
    assert_eq!(app.current_screen, CurrentScreen::Init);
    assert!(app.kdf_params.is_none());
    assert!(!app.credentials_file_exists);
}

#[test]
fn save_credential_lists_website_and_clears_inputs() {
    let mut app = App::new();
    fill(&mut app, "example.com", "a@b.com", "u", "p", "");
    app.save_credential();
    assert_eq!(app.websites, vec!["example.com".to_string()]);
    assert!(app.website_input.is_empty());
    assert!(app.password_input.is_empty());
    assert!(app.currently_editing.is_none());
}

#[test]
fn load_emails_clamps_selection() {
    let mut app = App::new();
    fill(&mut app, "a.org", "1@a.org", "", "", "");
    app.save_credential();
    fill(&mut app, "b.org", "2@b.org", "", "", "");
    app.save_credential();
    app.selected_website_index = 9;
    app.load_emails();
    assert_eq!(app.selected_website_index, 1);
    assert_eq!(app.emails, vec!["2@b.org".to_string()]);
}

#[test]
fn load_emails_without_websites_empties_list() {
    let mut app = App::new();
    app.emails = vec!["stale".to_string()];
    app.load_emails();
    assert!(app.emails.is_empty());
}

#[test]
fn load_credential_fills_inputs() {
    let mut app = App::new();
    fill(&mut app, "a.org", "1@a.org", "user", "secret", "note");
    app.save_credential();
    app.load_emails();
    app.load_credential();
    assert_eq!(app.website_input, "a.org");
    assert_eq!(app.email_input, "1@a.org");
    assert_eq!(app.username_input, "user");
    assert_eq!(app.password_input, "secret");
    assert_eq!(app.notes_input, "note");
}

#[test]
fn load_credential_out_of_range_resets_selection() {
    let mut app = App::new();
    app.selected_website_index = 3;
    app.load_credential();
    assert_eq!(app.selected_website_index, 0);
    fill(&mut app, "a.org", "1@a.org", "", "", "");
    app.save_credential();
    app.selected_email_index = 4;
    app.load_credential();
    assert_eq!(app.selected_email_index, 0);
}

#[test]
fn remove_selected_credential_refreshes_lists() {
    let mut app = App::new();
    fill(&mut app, "a.org", "1@a.org", "", "", "");
    app.save_credential();
    fill(&mut app, "a.org", "2@a.org", "", "", "");
    app.save_credential();
    app.load_emails();
    app.selected_email_index = 0;
    app.remove_selected_credential();
    assert_eq!(app.websites, vec!["a.org".to_string()]);
    assert_eq!(app.emails, vec!["2@a.org".to_string()]);
    app.selected_email_index = 0;
    app.remove_selected_credential();
    assert!(app.websites.is_empty());
    assert!(app.emails.is_empty());
}

#[test]
fn remove_with_selection_out_of_range_moves_selection() {
    let mut app = App::new();
    fill(&mut app, "a.org", "1@a.org", "", "", "");
    app.save_credential();
    app.load_emails();
    app.selected_email_index = 5;
    app.remove_selected_credential();
    assert_eq!(app.selected_email_index, 0);
    assert_eq!(app.credentials.len(), 1);
}

#[test]
fn discard_clears_all_inputs() {
    let mut app = App::new();
    fill(&mut app, "a", "b", "c", "d", "e");
    app.currently_editing = Some(CurrentlyEditingCredentialField::Notes);
    app.discard_unsaved_credentials();
    assert!(app.website_input.is_empty() && app.email_input.is_empty());
    assert!(app.username_input.is_empty() && app.password_input.is_empty());
    assert!(app.notes_input.is_empty());
    assert!(app.currently_editing.is_none());
}

#[test]
fn cycling_visits_every_field_in_order() {
    let mut app = App::new();
    app.currently_editing_credential_field = Some(CurrentlyEditingCredentialField::Website);
    let order = [
        CurrentlyEditingCredentialField::Email,
        CurrentlyEditingCredentialField::Username,
        CurrentlyEditingCredentialField::Password,
        CurrentlyEditingCredentialField::Notes,
        CurrentlyEditingCredentialField::Website,
    ];
    for f in order {
        app.cycle_editing_credential();
        assert_eq!(app.currently_editing_credential_field, Some(f));
    }
    app.reverse_cycle_editing_credential();
    assert_eq!(app.currently_editing_credential_field, Some(CurrentlyEditingCredentialField::Notes));
    app.reverse_cycle_editing_credential();
    assert_eq!(app.currently_editing_credential_field, Some(CurrentlyEditingCredentialField::Password));
}

#[test]
fn cycling_without_a_field_starts_at_website() {
    let mut app = App::new();
    app.cycle_editing_credential();
    assert_eq!(app.currently_editing, Some(CurrentlyEditingCredentialField::Website));
    let mut app = App::new();
    app.reverse_cycle_editing_credential();
    assert_eq!(app.currently_editing, Some(CurrentlyEditingCredentialField::Website));
}

#[test]
fn master_password_validates_against_the_stored_vault() {
    let mut owner = App::new();
    owner.set_master_key(params(), "pw").unwrap();
    let vault = owner.save_changes().ok().unwrap();
    let mut app = App::new();
    assert!(app.validate_master_password(&"pw".to_string(), &vault));
    assert!(!app.validate_master_password(&"other".to_string(), &vault));
    assert!(app.master_key.is_empty());
}

#[test]
fn lock_discards_the_key() {
    let mut app = App::new();
    app.set_master_key(params(), "pw").unwrap();
    fill(&mut app, "a.org", "1@a.org", "", "", "");
    app.save_credential();
    assert_eq!(app.master_key.len(), 32);
    app.lock();
    assert!(app.master_key.is_empty());
    assert!(app.kdf_params.is_none());
    assert_eq!(app.credentials.len(), 1);
    assert_eq!(app.save_changes().err(), Some(VaultError::InvalidParameters));
}

#[test]
fn failed_unlock_keeps_the_website_list() {
    let mut owner = App::new();
    owner.set_master_key(params(), "pw").unwrap();
    let vault = owner.save_changes().ok().unwrap();
    let mut app = App::new();
    app.websites = vec!["kept".to_string()];
    assert_eq!(app.load_credentials(Some(vault), "wrong"), Err(VaultError::AuthenticationFailed));
    assert_eq!(app.websites, vec!["kept".to_string()]);
}

#[test]
fn save_then_unlock_restores_credentials() {
    let mut app = App::new();
    app.set_master_key(params(), "pw").unwrap();
    fill(&mut app, "a.org", "1@a.org", "u", "p", "n");
    app.save_credential();
    let vault = app.save_changes().ok().unwrap();
    let mut fresh = App::new();
    assert_eq!(fresh.load_credentials(Some(vault), "pw"), Ok(()));
    assert!(fresh.credentials_file_exists);
    assert_eq!(fresh.websites, vec!["a.org".to_string()]);
    assert_eq!(fresh.master_key, app.master_key);
}

#[test]
fn unlock_with_wrong_password_fails_authentication() {
    let mut app = App::new();
    app.set_master_key(params(), "pw").unwrap();
    fill(&mut app, "a.org", "1@a.org", "u", "p", "n");
    app.save_credential();
    let vault = app.save_changes().ok().unwrap();
    let mut fresh = App::new();
    assert_eq!(fresh.load_credentials(Some(vault), "nope"), Err(VaultError::AuthenticationFailed));
    assert_eq!(fresh.credentials.len(), 0);
    assert!(!fresh.credentials_file_exists);
}

#[test]
fn unlock_without_vault_keeps_session() {
    let mut app = App::new();
    assert_eq!(app.load_credentials(None, "pw"), Ok(()));
    assert!(app.websites.is_empty());
    assert!(!app.credentials_file_exists);
}

#[test]
fn saving_without_master_key_is_invalid() {
    let app = App::new();
    assert_eq!(app.save_changes().err(), Some(VaultError::InvalidParameters));
}
