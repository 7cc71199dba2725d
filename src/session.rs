//! The state of one unlocked session: screen, selection, edit buffers, the
//! master key and the credentials it protects.
use crate::credentials::{
    CredentialModel,
    emails_of,
    has_key,
    key_index,
    string_views,
    upsert,
    websites_of,
    without_key,
    Credential,
    Credentials,
};
use crate::error::VaultError;
use crate::kdf::{KdfParams, KEY_LEN};
use crate::vault::{
    decrypt,
    decrypt_outcome,
    encrypt,
    fits_cipher,
    has_opening,
    opening,
    VaultContainer,
    NONCE_LEN,
};
use crate::codec::{credentials_bytes, decodes_to};
use vstd::prelude::*;
use vstd::utf8::encode_utf8;

verus! {

#[derive(Clone, Copy, Debug, PartialEq, Eq, Structural)]
pub enum CurrentScreen {
    Init,
    NewPasswordRequiredScreen,
    MasterPasswordRequiredScreen,
    MainCredentialScreen,
    WebsiteCredentialScreen,
    SpecificCredentialScreen,
    Exiting,
}

#[derive(Clone, Copy, Debug, PartialEq, Eq, Structural)]
pub enum CurrentlyEditingCredentialField {
    Website,
    Email,
    Username,
    Password,
    Notes,
}

/// The field after `f` when cycling forward.
pub open spec fn next_field(f: CurrentlyEditingCredentialField) -> CurrentlyEditingCredentialField {
    match f {
        CurrentlyEditingCredentialField::Website => CurrentlyEditingCredentialField::Email,
        CurrentlyEditingCredentialField::Email => CurrentlyEditingCredentialField::Username,
        CurrentlyEditingCredentialField::Username => CurrentlyEditingCredentialField::Password,
        CurrentlyEditingCredentialField::Password => CurrentlyEditingCredentialField::Notes,
        CurrentlyEditingCredentialField::Notes => CurrentlyEditingCredentialField::Website,
    }
}

/// The field before `f` when cycling backward.
pub open spec fn prev_field(f: CurrentlyEditingCredentialField) -> CurrentlyEditingCredentialField {
    match f {
        CurrentlyEditingCredentialField::Website => CurrentlyEditingCredentialField::Notes,
        CurrentlyEditingCredentialField::Email => CurrentlyEditingCredentialField::Website,
        CurrentlyEditingCredentialField::Username => CurrentlyEditingCredentialField::Email,
        CurrentlyEditingCredentialField::Password => CurrentlyEditingCredentialField::Username,
        CurrentlyEditingCredentialField::Notes => CurrentlyEditingCredentialField::Password,
    }
}

/// What `load_credential` does, leaving aside the screen and the key.
pub open spec fn load_credential_post(o: App, f: App) -> bool {
    &&& f.emails@ == o.emails@
    &&& f.currently_editing == o.currently_editing
    &&& o.selected_website_index >= o.websites@.len() ==> f.selected_website_index == 0
        && f.selected_email_index == o.selected_email_index && f.same_fields(&o)
    &&& o.selected_website_index < o.websites@.len() && o.selected_email_index
        >= o.emails@.len() ==> f.selected_email_index == 0 && f.selected_website_index
        == o.selected_website_index && f.same_fields(&o)
    &&& o.selected_website_index < o.websites@.len() && o.selected_email_index
        < o.emails@.len() ==> {
        let w = o.websites@[o.selected_website_index as int]@;
        let e = o.emails@[o.selected_email_index as int]@;
        &&& f.selected_website_index == o.selected_website_index
        &&& f.selected_email_index == o.selected_email_index
        &&& has_key(o.credentials@, w, e) ==> {
            let c = o.credentials@[key_index(o.credentials@, w, e)];
            &&& f.website_input@ == c.website
            &&& f.email_input@ == c.email
            &&& f.username_input@ == c.username
            &&& f.password_input@ == c.password
            &&& f.notes_input@ == c.notes
        }
        &&& !has_key(o.credentials@, w, e) ==> f.same_fields(&o)
    }
}

/// What `remove_selected_credential` does, leaving aside the screen.
pub open spec fn remove_selected_post(o: App, f: App) -> bool {
    &&& f.same_passwords(&o)
    &&& if o.websites@.len() == 0 || o.emails@.len() == 0 {
        &&& f.same_store(&o)
        &&& f.same_selection(&o)
        &&& f.same_inputs(&o)
    } else if o.selected_website_index >= o.websites@.len() || o.selected_email_index
        >= o.emails@.len() {
        &&& f.same_store(&o)
        &&& f.emails@ == o.emails@
        &&& f.same_inputs(&o)
        &&& f.selected_website_index == o.websites@.len() - 1
        &&& f.selected_email_index == o.emails@.len() - 1
    } else {
        let w = o.websites@[o.selected_website_index as int]@;
        let e = o.emails@[o.selected_email_index as int]@;
        &&& f.same_key(&o)
        &&& f.selected_email_index == o.selected_email_index
        &&& f.credentials@ == without_key(o.credentials@, w, e)
        &&& string_views(f.websites@) == websites_of(f.credentials@)
        &&& f.websites@.len() > 0 ==> string_views(f.emails@) == emails_of(
            f.credentials@,
            f.websites@[f.selected_website_index as int]@,
        )
        &&& f.websites@.len() == 0 ==> f.emails@.len() == 0
        &&& f.inputs_cleared()
    }
}

pub struct App {
    pub credentials_file_exists: bool,
    /// Whether there are changes not yet written out.
    pub unsaved_changes: bool,
    /// The websites of the saved credentials.
    pub websites: Vec<String>,
    pub selected_website_index: usize,
    /// The emails saved under the selected website.
    pub emails: Vec<String>,
    pub selected_email_index: usize,
    /// Which credential field is being edited, if any.
    pub currently_editing_credential_field: Option<CurrentlyEditingCredentialField>,
    pub master_key: Vec<u8>,
    /// How `master_key` was derived; `None` until a master password is set or checked.
    pub kdf_params: Option<KdfParams>,
    pub credentials: Credentials,
    pub new_password_input: String,
    pub master_password_input: String,
    pub website_input: String,
    pub email_input: String,
    pub username_input: String,
    pub password_input: String,
    pub notes_input: String,
    pub current_screen: CurrentScreen,
    pub currently_editing: Option<CurrentlyEditingCredentialField>,
}

impl App {
    pub open spec fn wf(&self) -> bool {
        self.credentials.wf()
    }

    /// The edit buffers are empty and nothing is being edited.
    pub open spec fn inputs_cleared(&self) -> bool {
        &&& self.website_input@.len() == 0
        &&& self.email_input@.len() == 0
        &&& self.username_input@.len() == 0
        &&& self.password_input@.len() == 0
        &&& self.notes_input@.len() == 0
        &&& self.currently_editing is None
    }

    /// `self` and `o` agree on the key, how it was derived, and the flags.
    pub open spec fn same_key(&self, o: &App) -> bool {
        &&& self.master_key@ == o.master_key@
        &&& self.kdf_params == o.kdf_params
        &&& self.credentials_file_exists == o.credentials_file_exists
        &&& self.unsaved_changes == o.unsaved_changes
    }

    /// `self` and `o` agree on the stored credentials, the key, the flags and
    /// the website list.
    pub open spec fn same_store(&self, o: &App) -> bool {
        &&& self.credentials@ == o.credentials@
        &&& self.websites@ == o.websites@
        &&& self.same_key(o)
    }

    /// `self` and `o` agree on the email list and both selections.
    pub open spec fn same_selection(&self, o: &App) -> bool {
        &&& self.emails@ == o.emails@
        &&& self.selected_website_index == o.selected_website_index
        &&& self.selected_email_index == o.selected_email_index
    }

    /// `self` and `o` hold the same five credential edit buffers.
    pub open spec fn same_fields(&self, o: &App) -> bool {
        &&& self.website_input@ == o.website_input@
        &&& self.email_input@ == o.email_input@
        &&& self.username_input@ == o.username_input@
        &&& self.password_input@ == o.password_input@
        &&& self.notes_input@ == o.notes_input@
    }

    /// `self` and `o` hold the same edit buffers and edit the same field.
    pub open spec fn same_inputs(&self, o: &App) -> bool {
        &&& self.same_fields(o)
        &&& self.currently_editing == o.currently_editing
    }

    /// `self` and `o` hold the same typed master passwords.
    pub open spec fn same_passwords(&self, o: &App) -> bool {
        &&& self.new_password_input@ == o.new_password_input@
        &&& self.master_password_input@ == o.master_password_input@
    }

    /// `self` and `o` agree on every field.
    pub open spec fn unchanged(&self, o: &App) -> bool {
        &&& self.same_store(o)
        &&& self.same_selection(o)
        &&& self.same_inputs(o)
        &&& self.same_passwords(o)
        &&& self.keeps_screen(o)
    }

    /// `self` and `o` show the same screen and edit the same field.
    pub open spec fn keeps_screen(&self, o: &App) -> bool {
        &&& self.current_screen == o.current_screen
        &&& self.currently_editing_credential_field == o.currently_editing_credential_field
    }

    pub fn new() -> (r: App)
        ensures
            r.wf(),
            r.credentials@.len() == 0,
            r.websites@.len() == 0,
            r.emails@.len() == 0,
            r.selected_website_index == 0,
            r.selected_email_index == 0,
            r.master_key@.len() == 0,
            r.kdf_params is None,
            r.currently_editing_credential_field is None,
            r.master_password_input@.len() == 0,
            r.new_password_input@.len() == 0,
            r.inputs_cleared(),
            r.current_screen == CurrentScreen::Init,
            !r.credentials_file_exists,
            r.unsaved_changes,
    {
        App {
            credentials_file_exists: false,
            unsaved_changes: true,
            websites: Vec::new(),
            selected_website_index: 0,
            emails: Vec::new(),
            selected_email_index: 0,
            currently_editing_credential_field: None,
            new_password_input: String::new(),
            master_password_input: String::new(),
            website_input: String::new(),
            email_input: String::new(),
            username_input: String::new(),
            password_input: String::new(),
            notes_input: String::new(),
            current_screen: CurrentScreen::Init,
            currently_editing: None,
            credentials: Credentials::new(),
            master_key: Vec::new(),
            kdf_params: None,
        }
    }

    /// Refreshes `emails` for the selected website, first clamping the
    /// selection to the last website.
    pub fn load_emails(&mut self)
        requires
            old(self).wf(),
        ensures
            final(self).keeps_screen(old(self)),
            final(self).wf(),
            final(self).same_store(old(self)),
            final(self).same_inputs(old(self)),
            final(self).same_passwords(old(self)),
            final(self).selected_email_index == old(self).selected_email_index,
            old(self).websites@.len() == 0 ==> final(self).emails@.len() == 0
                && final(self).selected_website_index == old(self).selected_website_index,
            old(self).websites@.len() > 0 ==> {
                &&& final(self).selected_website_index == if old(self).selected_website_index
                    < old(self).websites@.len() {
                    old(self).selected_website_index as int
                } else {
                    old(self).websites@.len() - 1
                }
                &&& string_views(final(self).emails@) == emails_of(
                    old(self).credentials@,
                    old(self).websites@[final(self).selected_website_index as int]@,
                )
            },
    {
        if self.websites.len() == 0 {
            self.emails = Vec::new();
            return;
        }
        if self.selected_website_index > self.websites.len() - 1 {
            self.selected_website_index = self.websites.len() - 1;
        }
        let emails = self.credentials.get_emails(&self.websites[self.selected_website_index]);
        self.emails = emails;
    }

    /// Copies the selected credential into the edit buffers. A selection out of
    /// range is reset to the first entry instead.
    pub fn load_credential(&mut self)
        requires
            old(self).wf(),
        ensures
            final(self).keeps_screen(old(self)),
            final(self).wf(),
            final(self).same_store(old(self)),
            final(self).same_passwords(old(self)),
            load_credential_post(*old(self), *final(self)),
    {
        if self.selected_website_index >= self.websites.len() {
            self.selected_website_index = 0;
            return;
        }
        if self.selected_email_index >= self.emails.len() {
            self.selected_email_index = 0;
            return;
        }
        let found = self.credentials.get_credential(
            &self.websites[self.selected_website_index],
            &self.emails[self.selected_email_index],
        );
        match found {
            Some(credential) => {
                let c = credential.duplicate();
                self.website_input = c.website;
                self.email_input = c.email;
                self.username_input = c.username;
                self.password_input = c.password;
                self.notes_input = c.notes;
            },
            None => {},
        }
    }

    /// Empties the edit buffers and leaves edit mode.
    pub fn discard_unsaved_credentials(&mut self)
        requires
            old(self).wf(),
        ensures
            final(self).keeps_screen(old(self)),
            final(self).wf(),
            final(self).same_store(old(self)),
            final(self).same_passwords(old(self)),
            final(self).inputs_cleared(),
            final(self).emails@ == old(self).emails@,
            final(self).selected_website_index == old(self).selected_website_index,
            final(self).selected_email_index == old(self).selected_email_index,
    {
        self.website_input = String::new();
        self.email_input = String::new();
        self.username_input = String::new();
        self.password_input = String::new();
        self.notes_input = String::new();
        self.currently_editing = None;
    }

    /// Removes the selected credential and refreshes the lists. Where the
    /// selection is out of range, it is moved to the last entries instead.
    pub fn remove_selected_credential(&mut self)
        requires
            old(self).wf(),
        ensures
            final(self).keeps_screen(old(self)),
            final(self).wf(),
            remove_selected_post(*old(self), *final(self)),
    {
        if self.websites.len() == 0 {
            return;
        }
        if self.emails.len() == 0 {
            return;
        }
        if self.websites.len() <= self.selected_website_index || self.emails.len()
            <= self.selected_email_index {
            self.selected_website_index = self.websites.len() - 1;
            self.selected_email_index = self.emails.len() - 1;
            return;
        }
        let website = self.websites[self.selected_website_index].clone();
        let email = self.emails[self.selected_email_index].clone();
        self.credentials.remove_credential(&website, &email);
        self.websites = self.credentials.get_websites();
        self.load_emails();
        self.discard_unsaved_credentials();
    }

    /// Saves the edit buffers as a credential, refreshes the website list and
    /// clears the buffers.
    pub fn save_credential(&mut self)
        requires
            old(self).wf(),
        ensures
            final(self).keeps_screen(old(self)),
            final(self).wf(),
            final(self).credentials@ == upsert(
                old(self).credentials@,
                crate::credentials::CredentialModel {
                    website: old(self).website_input@,
                    email: old(self).email_input@,
                    username: old(self).username_input@,
                    password: old(self).password_input@,
                    notes: old(self).notes_input@,
                },
            ),
            string_views(final(self).websites@) == websites_of(final(self).credentials@),
            final(self).inputs_cleared(),
            final(self).same_key(old(self)),
            final(self).same_selection(old(self)),
            final(self).same_passwords(old(self)),
    {
        let credential = Credential::new(
            self.website_input.clone(),
            self.email_input.clone(),
            self.username_input.clone(),
            self.password_input.clone(),
            self.notes_input.clone(),
        );
        self.credentials.add_or_update_credential(credential);
        self.websites = self.credentials.get_websites();
        self.discard_unsaved_credentials();
    }

    /// Moves editing to the next credential field; with none selected, starts
    /// editing at the website.
    pub fn cycle_editing_credential(&mut self)
        requires
            old(self).wf(),
        ensures
            final(self).wf(),
            final(self).same_store(old(self)),
            final(self).same_selection(old(self)),
            final(self).same_fields(old(self)),
            final(self).same_passwords(old(self)),
            final(self).current_screen == old(self).current_screen,
            match old(self).currently_editing_credential_field {
                Some(f) => final(self).currently_editing_credential_field == Some(next_field(f))
                    && final(self).currently_editing == old(self).currently_editing,
                None => final(self).currently_editing == Some(
                    CurrentlyEditingCredentialField::Website,
                ) && final(self).currently_editing_credential_field is None,
            },
    {
        match self.currently_editing_credential_field {
            Some(edit_mode) => {
                let next = match edit_mode {
                    CurrentlyEditingCredentialField::Website => CurrentlyEditingCredentialField::Email,
                    CurrentlyEditingCredentialField::Email => CurrentlyEditingCredentialField::Username,
                    CurrentlyEditingCredentialField::Username => CurrentlyEditingCredentialField::Password,
                    CurrentlyEditingCredentialField::Password => CurrentlyEditingCredentialField::Notes,
                    CurrentlyEditingCredentialField::Notes => CurrentlyEditingCredentialField::Website,
                };
                self.currently_editing_credential_field = Some(next);
            },
            None => {
                self.currently_editing = Some(CurrentlyEditingCredentialField::Website);
            },
        }
    }

    /// Moves editing to the previous credential field; with none selected,
    /// starts editing at the website.
    pub fn reverse_cycle_editing_credential(&mut self)
        requires
            old(self).wf(),
        ensures
            final(self).wf(),
            final(self).same_store(old(self)),
            final(self).same_selection(old(self)),
            final(self).same_fields(old(self)),
            final(self).same_passwords(old(self)),
            final(self).current_screen == old(self).current_screen,
            match old(self).currently_editing_credential_field {
                Some(f) => final(self).currently_editing_credential_field == Some(prev_field(f))
                    && final(self).currently_editing == old(self).currently_editing,
                None => final(self).currently_editing == Some(
                    CurrentlyEditingCredentialField::Website,
                ) && final(self).currently_editing_credential_field is None,
            },
    {
        match self.currently_editing_credential_field {
            Some(edit_mode) => {
                let prev = match edit_mode {
                    CurrentlyEditingCredentialField::Website => CurrentlyEditingCredentialField::Notes,
                    CurrentlyEditingCredentialField::Email => CurrentlyEditingCredentialField::Website,
                    CurrentlyEditingCredentialField::Username => CurrentlyEditingCredentialField::Email,
                    CurrentlyEditingCredentialField::Password => CurrentlyEditingCredentialField::Username,
                    CurrentlyEditingCredentialField::Notes => CurrentlyEditingCredentialField::Password,
                };
                self.currently_editing_credential_field = Some(prev);
            },
            None => {
                self.currently_editing = Some(CurrentlyEditingCredentialField::Website);
            },
        }
    }
}

fn bytes_equal(a: &Vec<u8>, b: &Vec<u8>) -> (r: bool)
    ensures
        r == (a@ == b@),
{
    if a.len() != b.len() {
        return false;
    }
    let mut i: usize = 0;
    while i < a.len()
        invariant
            a@.len() == b@.len(),
            i <= a@.len(),
            forall|k: int| 0 <= k < i ==> a@[k] == b@[k],
        decreases a@.len() - i,
    {
        if a[i] != b[i] {
            return false;
        }
        i = i + 1;
    }
    assert(a@ =~= b@);
    true
}

/// The result of `decrypt` as values.
pub open spec fn result_view(r: Result<Credentials, VaultError>) -> Result<
    Seq<CredentialModel>,
    VaultError,
> {
    match r {
        Ok(c) => Ok(c@),
        Err(e) => Err(e),
    }
}

/// `password` opens `v`: it derives a key under the vault's parameters, and
/// under that key the ciphertext opens to the layout of a credential set.
pub open spec fn unlocks(v: VaultContainer, password: Seq<u8>) -> bool {
    match v.kdf_params.key_for(password) {
        Ok(k) => v.nonce@.len() == NONCE_LEN && has_opening(k, v.nonce@, v.ciphertext@)
            && exists|s: Seq<CredentialModel>| decodes_to(opening(k, v.nonce@, v.ciphertext@), s),
        Err(_) => false,
    }
}

/// A result that `decrypt` may give is `Ok` exactly where the ciphertext opens
/// to the layout of a credential set.
proof fn lemma_decrypt_ok_iff(
    key: Seq<u8>,
    nonce: Seq<u8>,
    ciphertext: Seq<u8>,
    r: Result<Seq<CredentialModel>, VaultError>,
)
    requires
        decrypt_outcome(key, nonce, ciphertext, r),
    ensures
        r is Ok <==> (nonce.len() == NONCE_LEN && has_opening(key, nonce, ciphertext) && exists|
            s: Seq<CredentialModel>,
        | decodes_to(opening(key, nonce, ciphertext), s)),
{
    if let Ok(s) = r {
        assert(decodes_to(opening(key, nonce, ciphertext), s));
    }
}

impl App {
    /// Unlocks the stored vault, if there is one, with `password`, and lists
    /// its websites. With no vault the session keeps its credentials and key.
    /// On failure nothing changes.
    pub fn load_credentials(&mut self, vault: Option<VaultContainer>, password: &str) -> (r: Result<
        (),
        VaultError,
    >)
        requires
            old(self).wf(),
        ensures
            final(self).wf(),
            final(self).keeps_screen(old(self)),
            final(self).same_selection(old(self)),
            final(self).same_inputs(old(self)),
            final(self).same_passwords(old(self)),
            r is Ok ==> string_views(final(self).websites@) == websites_of(final(self).credentials@),
            r is Err ==> final(self).same_store(old(self)),
            match vault {
                None => r is Ok && final(self).credentials@ == old(self).credentials@ && final(self).same_key(old(self)),
                Some(v) => {
                    &&& r is Ok <==> unlocks(v, encode_utf8(password@))
                    &&& match v.kdf_params.key_for(encode_utf8(password@)) {
                        Err(e) => r == Err::<(), VaultError>(e),
                        Ok(k) => {
                            &&& r is Ok ==> decrypt_outcome(
                                k,
                                v.nonce@,
                                v.ciphertext@,
                                Ok(final(self).credentials@),
                            ) && final(self).master_key@ == k && final(self).credentials_file_exists
                                && final(self).kdf_params == Some(v.kdf_params)
                                && final(self).unsaved_changes == old(self).unsaved_changes
                            &&& r matches Err(e) ==> decrypt_outcome(
                                k,
                                v.nonce@,
                                v.ciphertext@,
                                Err(e),
                            )
                        },
                    }
                },
            },
    {
        match vault {
            Some(v) => {
                let key = v.kdf_params.derive_key(password)?;
                let opened = decrypt(&key, &v);
                proof {
                    lemma_decrypt_ok_iff(key@, v.nonce@, v.ciphertext@, result_view(opened));
                }
                match opened {
                    Ok(credentials) => {
                        self.master_key = key;
                        self.credentials = credentials;
                        self.kdf_params = Some(v.kdf_params);
                        self.credentials_file_exists = true;
                    },
                    Err(e) => {
                        return Err(e);
                    },
                }
            },
            None => {},
        }
        self.websites = self.credentials.get_websites();
        Ok(())
    }

    /// Whether `password` opens `stored_vault`.
    pub fn validate_master_password(&mut self, password: &String, stored_vault: &VaultContainer) -> (r:
        bool)
        ensures
            *final(self) == *old(self),
            r == unlocks(*stored_vault, encode_utf8(password@)),
    {
        match stored_vault.kdf_params.derive_key(password.as_str()) {
            Ok(k) => {
                let opened = decrypt(&k, stored_vault);
                proof {
                    lemma_decrypt_ok_iff(
                        k@,
                        stored_vault.nonce@,
                        stored_vault.ciphertext@,
                        result_view(opened),
                    );
                }
                opened.is_ok()
            },
            Err(_) => false,
        }
    }

    /// Derives the master key from `password` under `params`, and keeps both.
    pub fn set_master_key(&mut self, params: KdfParams, password: &str) -> (r: Result<(), VaultError>)
        requires
            old(self).wf(),
        ensures
            final(self).wf(),
            final(self).keeps_screen(old(self)),
            final(self).same_selection(old(self)),
            final(self).same_inputs(old(self)),
            final(self).same_passwords(old(self)),
            final(self).credentials@ == old(self).credentials@,
            final(self).websites@ == old(self).websites@,
            final(self).credentials_file_exists == old(self).credentials_file_exists,
            final(self).unsaved_changes == old(self).unsaved_changes,
            match params.key_for(encode_utf8(password@)) {
                Ok(k) => r is Ok && final(self).master_key@ == k && final(self).master_key@.len()
                    == KEY_LEN && final(self).kdf_params == Some(params),
                Err(e) => r == Err::<(), VaultError>(e) && final(self).same_key(old(self)),
            },
    {
        let key = params.derive_key(password)?;
        self.master_key = key;
        self.kdf_params = Some(params);
        Ok(())
    }

    /// Sets a new master password: fresh parameters with a random salt, and
    /// the key derived under them.
    pub fn generate_initial_master_key_from_password(&mut self, password: &str) -> (r: Result<
        (),
        VaultError,
    >)
        requires
            old(self).wf(),
        ensures
            final(self).wf(),
            final(self).keeps_screen(old(self)),
            final(self).same_selection(old(self)),
            final(self).same_inputs(old(self)),
            final(self).same_passwords(old(self)),
            final(self).credentials@ == old(self).credentials@,
            final(self).websites@ == old(self).websites@,
            final(self).credentials_file_exists == old(self).credentials_file_exists,
            final(self).unsaved_changes == old(self).unsaved_changes,
            encode_utf8(password@).len() <= 0xFFFF_FFFF ==> r is Ok,
            r is Ok ==> final(self).master_key@.len() == KEY_LEN && (final(self).kdf_params matches Some(p)
                && p.is_fresh_default() && p.key_for(encode_utf8(password@)) == Ok::<
                Seq<u8>,
                VaultError,
            >(final(self).master_key@)),
            r is Err ==> final(self).same_key(old(self)),
    {
        self.set_master_key(KdfParams::generate(), password)
    }

    /// Encrypts the credentials under the master key into a new vault, ready to
    /// be stored. Without a master key it fails with `InvalidParameters`.
    pub fn save_changes(&self) -> (r: Result<VaultContainer, VaultError>)
        requires
            self.wf(),
        ensures
            (self.kdf_params is None || self.master_key@.len() != KEY_LEN) ==> r
                == Err::<VaultContainer, VaultError>(VaultError::InvalidParameters),
            (self.kdf_params is Some && self.master_key@.len() == KEY_LEN) ==> (r is Ok
                <==> fits_cipher(credentials_bytes(self.credentials@).len())),
            r matches Ok(v) ==> v.kdf_params.same_as(&self.kdf_params->0) && v.nonce@.len()
                == NONCE_LEN && v.ciphertext@ == crate::vault::sealed(
                self.master_key@,
                v.nonce@,
                credentials_bytes(self.credentials@),
            ),
            r matches Err(e) ==> e == VaultError::InvalidParameters || e
                == VaultError::SerializationError,
    {
        match &self.kdf_params {
            Some(p) => {
                if self.master_key.len() != KEY_LEN {
                    return Err(VaultError::InvalidParameters);
                }
                encrypt(&self.master_key, p.duplicate(), &self.credentials)
            },
            None => Err(VaultError::InvalidParameters),
        }
    }

    /// Locks the session: overwrites the master key with zeros, then drops it
    /// together with the parameters it was derived under.
    pub fn lock(&mut self)
        requires
            old(self).wf(),
        ensures
            final(self).wf(),
            final(self).master_key@.len() == 0,
            final(self).kdf_params is None,
            final(self).credentials@ == old(self).credentials@,
            final(self).websites@ == old(self).websites@,
            final(self).credentials_file_exists == old(self).credentials_file_exists,
            final(self).unsaved_changes == old(self).unsaved_changes,
            final(self).keeps_screen(old(self)),
            final(self).same_selection(old(self)),
            final(self).same_inputs(old(self)),
            final(self).same_passwords(old(self)),
    {
        let mut i: usize = 0;
        while i < self.master_key.len()
            invariant
                i <= self.master_key@.len(),
                self.master_key@.len() == old(self).master_key@.len(),
                self.credentials@ == old(self).credentials@,
                self.wf(),
                self.websites@ == old(self).websites@,
                self.credentials_file_exists == old(self).credentials_file_exists,
                self.unsaved_changes == old(self).unsaved_changes,
                self.keeps_screen(old(self)),
                self.same_selection(old(self)),
                self.same_inputs(old(self)),
                self.same_passwords(old(self)),
                forall|k: int| 0 <= k < i ==> self.master_key@[k] == 0,
            decreases self.master_key@.len() - i,
        {
            self.master_key.set(i, 0);
            i = i + 1;
        }
        self.master_key.clear();
        self.kdf_params = None;
    }
}

} // verus!
