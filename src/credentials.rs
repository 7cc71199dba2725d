//! The in-memory credential records and the collection that holds them.
use vstd::prelude::*;

verus! {

/// One secret record. Its identity key is the pair (website, email).
pub struct Credential {
    pub website: String,
    pub email: String,
    pub username: String,
    pub password: String,
    pub notes: String,
}

/// The mathematical value of a credential: its five fields as character sequences.
pub struct CredentialModel {
    pub website: Seq<char>,
    pub email: Seq<char>,
    pub username: Seq<char>,
    pub password: Seq<char>,
    pub notes: Seq<char>,
}

impl View for Credential {
    type V = CredentialModel;

    open spec fn view(&self) -> CredentialModel {
        CredentialModel {
            website: self.website@,
            email: self.email@,
            username: self.username@,
            password: self.password@,
            notes: self.notes@,
        }
    }
}

impl Credential {
    pub fn new(
        website: String,
        email: String,
        username: String,
        password: String,
        notes: String,
    ) -> (r: Credential)
        ensures
            r.website@ == website@,
            r.email@ == email@,
            r.username@ == username@,
            r.password@ == password@,
            r.notes@ == notes@,
    {
        Credential { website, email, username, password, notes }
    }

    /// A field-by-field copy.
    pub fn duplicate(&self) -> (r: Credential)
        ensures
            r@ == self@,
    {
        Credential {
            website: self.website.clone(),
            email: self.email.clone(),
            username: self.username.clone(),
            password: self.password.clone(),
            notes: self.notes.clone(),
        }
    }
}

/// Whether `c` has the identity key (w, e).
pub open spec fn has_identity(c: CredentialModel, w: Seq<char>, e: Seq<char>) -> bool {
    c.website == w && c.email == e
}

/// No two records share an identity key.
pub open spec fn unique_keys(s: Seq<CredentialModel>) -> bool {
    forall|i: int, j: int|
        0 <= i < j < s.len() ==> !has_identity(#[trigger] s[i], s[j].website, #[trigger] s[j].email)
}

pub open spec fn has_key(s: Seq<CredentialModel>, w: Seq<char>, e: Seq<char>) -> bool {
    exists|i: int| 0 <= i < s.len() && has_identity(#[trigger] s[i], w, e)
}

/// The position of the record with identity key (w, e), where there is one.
pub open spec fn key_index(s: Seq<CredentialModel>, w: Seq<char>, e: Seq<char>) -> int {
    choose|i: int| 0 <= i < s.len() && has_identity(#[trigger] s[i], w, e)
}

/// `s` after saving `c`: the record with `c`'s identity key is overwritten in
/// place, or `c` is appended where there is none.
pub open spec fn upsert(s: Seq<CredentialModel>, c: CredentialModel) -> Seq<CredentialModel> {
    if has_key(s, c.website, c.email) {
        s.update(key_index(s, c.website, c.email), c)
    } else {
        s.push(c)
    }
}

/// `s` without the record whose identity key is (w, e).
pub open spec fn without_key(s: Seq<CredentialModel>, w: Seq<char>, e: Seq<char>) -> Seq<
    CredentialModel,
> {
    if has_key(s, w, e) {
        s.remove(key_index(s, w, e))
    } else {
        s
    }
}

/// The distinct websites of `s`, in the order in which they first occur.
pub open spec fn websites_of(s: Seq<CredentialModel>) -> Seq<Seq<char>>
    decreases s.len(),
{
    if s.len() == 0 {
        Seq::empty()
    } else {
        let rest = websites_of(s.drop_last());
        if rest.contains(s.last().website) {
            rest
        } else {
            rest.push(s.last().website)
        }
    }
}

/// The emails stored under website `w`, in the order of the records.
pub open spec fn emails_of(s: Seq<CredentialModel>, w: Seq<char>) -> Seq<Seq<char>>
    decreases s.len(),
{
    if s.len() == 0 {
        Seq::empty()
    } else {
        let rest = emails_of(s.drop_last(), w);
        if s.last().website == w {
            rest.push(s.last().email)
        } else {
            rest
        }
    }
}

pub open spec fn string_views(v: Seq<String>) -> Seq<Seq<char>> {
    v.map_values(|x: String| x@)
}

/// With unique keys, the record that has key (w, e) is the one `key_index` names.
pub proof fn lemma_key_index_unique(s: Seq<CredentialModel>, i: int, w: Seq<char>, e: Seq<char>)
    requires
        unique_keys(s),
        0 <= i < s.len(),
        has_identity(s[i], w, e),
    ensures
        has_key(s, w, e),
        key_index(s, w, e) == i,
{
    assert(has_identity(s[i], w, e));
    let j = key_index(s, w, e);
    if j < i {
        assert(!has_identity(s[j], s[i].website, s[i].email));
    } else if i < j {
        assert(!has_identity(s[i], s[j].website, s[j].email));
    }
}

/// Saving a record keeps identity keys unique.
pub proof fn lemma_upsert_unique(s: Seq<CredentialModel>, c: CredentialModel)
    requires
        unique_keys(s),
    ensures
        unique_keys(upsert(s, c)),
{
    let r = upsert(s, c);
    if has_key(s, c.website, c.email) {
        let k = key_index(s, c.website, c.email);
        assert forall|i: int, j: int| 0 <= i < j < r.len() implies !has_identity(
            #[trigger] r[i],
            r[j].website,
            #[trigger] r[j].email,
        ) by {
            if i == k {
                assert(!has_identity(s[k], s[j].website, s[j].email));
            } else if j == k {
                assert(!has_identity(s[i], s[k].website, s[k].email));
            } else {
                assert(!has_identity(s[i], s[j].website, s[j].email));
            }
        }
    } else {
        assert forall|i: int, j: int| 0 <= i < j < r.len() implies !has_identity(
            #[trigger] r[i],
            r[j].website,
            #[trigger] r[j].email,
        ) by {
            if j == s.len() {
                assert(!has_identity(s[i], c.website, c.email));
            } else {
                assert(!has_identity(s[i], s[j].website, s[j].email));
            }
        }
    }
}

/// Saving the same record twice leaves the collection as saving it once: one
/// record holds the key, with the fields of the last save.
pub proof fn lemma_upsert_idempotent(s: Seq<CredentialModel>, c: CredentialModel)
    requires
        unique_keys(s),
    ensures
        upsert(upsert(s, c), c) == upsert(s, c),
        unique_keys(upsert(s, c)),
        has_key(upsert(s, c), c.website, c.email),
        upsert(s, c)[key_index(upsert(s, c), c.website, c.email)] == c,
        forall|i: int|
            0 <= i < upsert(s, c).len() && has_identity(#[trigger] upsert(s, c)[i], c.website, c.email)
                ==> i == key_index(upsert(s, c), c.website, c.email),
{
    let r = upsert(s, c);
    lemma_upsert_unique(s, c);
    let k = if has_key(s, c.website, c.email) {
        key_index(s, c.website, c.email)
    } else {
        s.len() as int
    };
    assert(r[k] == c);
    lemma_key_index_unique(r, k, c.website, c.email);
    assert(r.update(k, c) =~= r);
    assert forall|i: int|
        0 <= i < r.len() && has_identity(#[trigger] r[i], c.website, c.email) implies i == k by {
        lemma_key_index_unique(r, i, c.website, c.email);
    }
}

/// All stored credentials; at most one per identity key.
pub struct Credentials {
    items: Vec<Credential>,
}

impl View for Credentials {
    type V = Seq<CredentialModel>;

    closed spec fn view(&self) -> Seq<CredentialModel> {
        self.items@.map_values(|c: Credential| c@)
    }
}

fn contains_string(v: &Vec<String>, s: &String) -> (r: bool)
    ensures
        r == string_views(v@).contains(s@),
{
    let mut i: usize = 0;
    while i < v.len()
        invariant
            i <= v.len(),
            forall|k: int| 0 <= k < i ==> v@[k]@ != s@,
        decreases v.len() - i,
    {
        if v[i] == *s {
            assert(string_views(v@)[i as int] == s@);
            return true;
        }
        i = i + 1;
    }
    proof {
        if string_views(v@).contains(s@) {
            let k = choose|k: int| 0 <= k < v@.len() && string_views(v@)[k] == s@;
            assert(v@[k]@ == s@);
        }
    }
    false
}

impl Credentials {
    /// Identity keys are unique.
    pub open spec fn wf(&self) -> bool {
        unique_keys(self@)
    }

    pub fn new() -> (r: Credentials)
        ensures
            r.wf(),
            r@ == Seq::<CredentialModel>::empty(),
    {
        let r = Credentials { items: Vec::new() };
        assert(r@ =~= Seq::<CredentialModel>::empty());
        r
    }

    pub fn len(&self) -> (r: usize)
        ensures
            r == self@.len(),
    {
        self.items.len()
    }

    /// The position of the record with key (website, email).
    fn find(&self, website: &String, email: &String) -> (r: Option<usize>)
        requires
            self.wf(),
        ensures
            match r {
                Some(i) => i < self@.len() && key_index(self@, website@, email@) == i && has_key(
                    self@,
                    website@,
                    email@,
                ),
                None => !has_key(self@, website@, email@),
            },
    {
        let mut i: usize = 0;
        while i < self.items.len()
            invariant
                self.wf(),
                i <= self.items@.len(),
                forall|k: int| 0 <= k < i ==> !has_identity(#[trigger] self@[k], website@, email@),
            decreases self.items@.len() - i,
        {
            if self.items[i].website == *website && self.items[i].email == *email {
                proof {
                    lemma_key_index_unique(self@, i as int, website@, email@);
                }
                return Some(i);
            }
            i = i + 1;
        }
        None
    }

    /// Saves `credential`: overwrites the record with its identity key in place,
    /// or appends it where there is none.
    pub fn add_or_update_credential(&mut self, credential: Credential)
        requires
            old(self).wf(),
        ensures
            final(self).wf(),
            final(self)@ == upsert(old(self)@, credential@),
    {
        let ghost c = credential@;
        let found = self.find(&credential.website, &credential.email);
        match found {
            Some(i) => {
                self.items.set(i, credential);
            },
            None => {
                self.items.push(credential);
            },
        }
        proof {
            assert(self@ =~= upsert(old(self)@, c));
            lemma_upsert_unique(old(self)@, c);
        }
    }

    /// Removes the record with key (website, email); a missing key is no error.
    /// Returns whether a record was removed.
    pub fn remove_credential(&mut self, website: &String, email: &String) -> (r: bool)
        requires
            old(self).wf(),
        ensures
            final(self).wf(),
            final(self)@ == without_key(old(self)@, website@, email@),
            r == has_key(old(self)@, website@, email@),
    {
        match self.find(website, email) {
            Some(i) => {
                self.items.remove(i);
                proof {
                    assert(self@ =~= old(self)@.remove(i as int));
                    let s = old(self)@;
                    let t = self@;
                    assert forall|a: int, b: int| 0 <= a < b < t.len() implies !has_identity(
                        #[trigger] t[a],
                        t[b].website,
                        #[trigger] t[b].email,
                    ) by {
                        let a2 = if a < i { a } else { a + 1 };
                        let b2 = if b < i { b } else { b + 1 };
                        assert(!has_identity(s[a2], s[b2].website, s[b2].email));
                    }
                }
                true
            },
            None => false,
        }
    }

    /// The record with key (website, email), if one is stored.
    pub fn get_credential(&self, website: &String, email: &String) -> (r: Option<&Credential>)
        requires
            self.wf(),
        ensures
            match r {
                Some(c) => has_key(self@, website@, email@) && c@ == self@[key_index(
                    self@,
                    website@,
                    email@,
                )],
                None => !has_key(self@, website@, email@),
            },
    {
        match self.find(website, email) {
            Some(i) => Some(&self.items[i]),
            None => None,
        }
    }

    /// The distinct websites, in the order in which they were first saved.
    pub fn get_websites(&self) -> (r: Vec<String>)
        ensures
            string_views(r@) == websites_of(self@),
    {
        let mut r: Vec<String> = Vec::new();
        let mut i: usize = 0;
        while i < self.items.len()
            invariant
                i <= self.items@.len(),
                string_views(r@) == websites_of(self@.take(i as int)),
            decreases self.items@.len() - i,
        {
            proof {
                assert(self@.take(i + 1).drop_last() =~= self@.take(i as int));
            }
            if !contains_string(&r, &self.items[i].website) {
                r.push(self.items[i].website.clone());
                assert(string_views(r@) =~= websites_of(self@.take(i + 1)));
            }
            i = i + 1;
        }
        assert(self@.take(i as int) =~= self@);
        r
    }

    /// The emails saved under `website`, in the order of the records.
    pub fn get_emails(&self, website: &String) -> (r: Vec<String>)
        ensures
            string_views(r@) == emails_of(self@, website@),
    {
        let mut r: Vec<String> = Vec::new();
        let mut i: usize = 0;
        while i < self.items.len()
            invariant
                i <= self.items@.len(),
                string_views(r@) == emails_of(self@.take(i as int), website@),
            decreases self.items@.len() - i,
        {
            proof {
                assert(self@.take(i + 1).drop_last() =~= self@.take(i as int));
            }
            if self.items[i].website == *website {
                r.push(self.items[i].email.clone());
                assert(string_views(r@) =~= emails_of(self@.take(i + 1), website@));
            }
            i = i + 1;
        }
        assert(self@.take(i as int) =~= self@);
        r
    }

    /// The record at position `i`.
    pub fn get(&self, i: usize) -> (r: &Credential)
        requires
            i < self@.len(),
        ensures
            r@ == self@[i as int],
    {
        &self.items[i]
    }
}

} // verus!
