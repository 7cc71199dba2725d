//! Key handling on the master-password and website screens.
use crate::credentials::{string_views, websites_of};
use crate::session::{
    load_credential_post,
    remove_selected_post,
    unlocks,
    App,
    CurrentScreen,
    CurrentlyEditingCredentialField,
};
use vstd::utf8::encode_utf8;
use crate::vault::VaultContainer;
use vstd::prelude::*;

verus! {

/// A key press, as far as the screens tell keys apart.
#[derive(Clone, Copy, Debug, PartialEq, Eq, Structural)]
pub enum Key {
    Enter,
    Esc,
    Backspace,
    Up,
    Down,
    Tab,
    BackTab,
    Char(char),
    Other,
}

/// Relies on std's `String::push`: appends one character.
#[verifier::external_body]
fn push_char(s: &mut String, c: char)
    ensures
        final(s)@ == old(s)@.push(c),
{
    s.push(c)
}

/// Relies on std's `String::pop`: removes and returns the last character.
#[verifier::external_body]
fn pop_char(s: &mut String) -> (r: Option<char>)
    ensures
        old(s)@.len() == 0 ==> r is None && final(s)@ == old(s)@,
        old(s)@.len() > 0 ==> r == Some(old(s)@.last()) && final(s)@ == old(s)@.drop_last(),
{
    s.pop()
}

/// `password` opens the stored vault, where there is one.
pub open spec fn opens(stored_vault: Option<VaultContainer>, password: Seq<u8>) -> bool {
    match stored_vault {
        Some(v) => unlocks(v, password),
        None => false,
    }
}

/// Handles `key` on the master-password screen. Enter tries to unlock
/// `stored_vault` with the typed password and moves to the main screen on
/// success; the typed password is cleared either way. Returns `Some(false)`
/// when the user asks to leave.
pub fn handle_master_password(app: &mut App, key: Key, stored_vault: Option<VaultContainer>) -> (r:
    Option<bool>)
    requires
        old(app).wf(),
    ensures
        final(app).wf(),
        key == Key::Esc <==> r == Some(false),
        r is None || r == Some(false),
        key == Key::Enter ==> final(app).master_password_input@.len() == 0,
        key == Key::Enter && opens(stored_vault, encode_utf8(old(app).master_password_input@))
            ==> final(app).current_screen == CurrentScreen::MainCredentialScreen,
        key == Key::Enter && !opens(stored_vault, encode_utf8(old(app).master_password_input@))
            ==> final(app).current_screen == old(app).current_screen && final(app).credentials@
            == old(app).credentials@ && final(app).same_key(old(app)),
        key == Key::Enter ==> final(app).same_selection(old(app)) && final(app).same_inputs(
            old(app),
        ) && final(app).currently_editing_credential_field == old(
        app).currently_editing_credential_field && final(app).new_password_input@ == old(
        app).new_password_input@,
        key != Key::Enter ==> final(app).same_store(old(app)) && final(app).same_selection(old(app))
            && final(app).same_inputs(old(app)) && final(app).keeps_screen(old(app)) && final(
        app).new_password_input@ == old(app).new_password_input@,
        key != Key::Enter && key != Key::Backspace && !(key is Char) ==> final(
        app).master_password_input@ == old(app).master_password_input@,
        key == Key::Backspace ==> final(app).master_password_input@ == if old(
        app).master_password_input@.len() == 0 {
            old(app).master_password_input@
        } else {
            old(app).master_password_input@.drop_last()
        },
        key matches Key::Char(c) ==> final(app).master_password_input@ == old(
        app).master_password_input@.push(c),
{
    match key {
        Key::Enter => {
            let input = app.master_password_input.clone();
            let has_vault = stored_vault.is_some();
            let loaded = app.load_credentials(stored_vault, input.as_str());
            if has_vault && loaded.is_ok() {
                app.current_screen = CurrentScreen::MainCredentialScreen;
            }
            app.master_password_input = String::new();
            None
        },
        Key::Esc => Some(false),
        Key::Backspace => {
            pop_char(&mut app.master_password_input);
            None
        },
        Key::Char(c) => {
            push_char(&mut app.master_password_input, c);
            None
        },
        _ => None,
    }
}

/// Handles `key` on the website screen: open, add to, leave, move through or
/// delete from the emails of the selected website.
pub fn handle_website_credentials(app: &mut App, key: Key) -> (r: Option<bool>)
    requires
        old(app).wf(),
    ensures
        final(app).wf(),
        r is None,
        key == Key::Enter ==> final(app).current_screen == CurrentScreen::SpecificCredentialScreen
            && final(app).currently_editing_credential_field == Some(
            CurrentlyEditingCredentialField::Username,
        ) && load_credential_post(*old(app), *final(app)) && final(app).same_store(old(app))
            && final(app).same_passwords(old(app)),
        key == Key::Backspace ==> remove_selected_post(*old(app), *final(app)) && final(
        app).keeps_screen(old(app)),
        (key == Key::Up || key == Key::BackTab || key == Key::Down || key == Key::Tab) ==> final(
        app).same_store(old(app)) && final(app).emails@ == old(app).emails@ && final(
        app).selected_website_index == old(app).selected_website_index && final(app).same_inputs(
            old(app),
        ) && final(app).same_passwords(old(app)) && final(app).keeps_screen(old(app)),
        (key == Key::Esc || key == Key::Char('q')) ==> final(app).same_store(old(app)) && final(
        app).same_selection(old(app)) && final(app).same_passwords(old(app)),
        (key == Key::Esc || key == Key::Char('q')) ==> final(app).current_screen
            == CurrentScreen::MainCredentialScreen && final(app).inputs_cleared(),
        key == Key::Char('n') ==> final(app).current_screen
            == CurrentScreen::SpecificCredentialScreen && final(app).currently_editing_credential_field
            == Some(CurrentlyEditingCredentialField::Email) && (old(app).selected_website_index
            < websites_of(old(app).credentials@).len() ==> final(app).website_input@ == websites_of(
            old(app).credentials@,
        )[old(app).selected_website_index as int]),
        (key == Key::Up || key == Key::BackTab) ==> final(app).selected_email_index == if old(
        app).selected_email_index > 0 {
            old(app).selected_email_index - 1
        } else {
            0
        },
        (key == Key::Down || key == Key::Tab) ==> final(app).selected_email_index == if old(
        app).selected_email_index + 1 < old(app).emails@.len() {
            old(app).selected_email_index + 1
        } else {
            old(app).selected_email_index as int
        },
        key != Key::Backspace ==> final(app).credentials@ == old(app).credentials@,
{
    match key {
        Key::Enter => {
            app.current_screen = CurrentScreen::SpecificCredentialScreen;
            app.currently_editing_credential_field = Some(CurrentlyEditingCredentialField::Username);
            app.load_credential();
        },
        Key::Esc => {
            app.current_screen = CurrentScreen::MainCredentialScreen;
            app.discard_unsaved_credentials();
        },
        Key::Char('q') => {
            app.current_screen = CurrentScreen::MainCredentialScreen;
            app.discard_unsaved_credentials();
        },
        Key::Char('n') => {
            app.current_screen = CurrentScreen::SpecificCredentialScreen;
            app.currently_editing_credential_field = Some(CurrentlyEditingCredentialField::Email);
            let websites = app.credentials.get_websites();
            if app.selected_website_index < websites.len() {
                app.website_input = websites[app.selected_website_index].clone();
                assert(app.website_input@ == string_views(websites@)[app.selected_website_index as int]);
            }
        },
        Key::Up | Key::BackTab => {
            if app.selected_email_index > 0 {
                app.selected_email_index = app.selected_email_index - 1;
            }
        },
        Key::Down | Key::Tab => {
            if app.selected_email_index < app.emails.len() && app.selected_email_index + 1
                < app.emails.len() {
                app.selected_email_index = app.selected_email_index + 1;
            }
        },
        Key::Backspace => {
            app.remove_selected_credential();
        },
        _ => {},
    }
    None
}

} // verus!
