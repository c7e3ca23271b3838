//! Credential records: the draft a user fills in, its validation, and the
//! stored entry built from it or edited with a new draft.
use vstd::prelude::*;
use crate::text::{lex_le, lex_lt, lemma_lex_le_refl, lemma_lex_le_trans};
use crate::ident::{is_canonical_id, generate_id, GenerationError};
use crate::clock::{is_utc_stamp, get_current_time, Clock};

verus! {

/// A stored credential record.
#[derive(Clone, Debug)]
pub struct PasswordEntry {
    pub id: String,
    pub title: String,
    pub username: String,
    pub password: String,
    pub website: Option<String>,
    pub email: Option<String>,
    pub created_at: String,
    pub updated_at: String,
}

/// What a user supplies for a new or edited record.
#[derive(Debug)]
pub struct CreatePasswordEntry {
    pub title: String,
    pub username: String,
    pub password: String,
    pub website: Option<String>,
    pub email: Option<String>,
}

/// The fields of a record as character sequences.
pub struct EntryView {
    pub id: Seq<char>,
    pub title: Seq<char>,
    pub username: Seq<char>,
    pub password: Seq<char>,
    pub website: Option<Seq<char>>,
    pub email: Option<Seq<char>>,
    pub created_at: Seq<char>,
    pub updated_at: Seq<char>,
}

/// The fields of a draft as character sequences.
pub struct DraftView {
    pub title: Seq<char>,
    pub username: Seq<char>,
    pub password: Seq<char>,
    pub website: Option<Seq<char>>,
    pub email: Option<Seq<char>>,
}

pub open spec fn opt_view(o: Option<String>) -> Option<Seq<char>> {
    match o {
        Some(s) => Some(s@),
        None => None,
    }
}

impl View for PasswordEntry {
    type V = EntryView;

    open spec fn view(&self) -> EntryView {
        EntryView {
            id: self.id@,
            title: self.title@,
            username: self.username@,
            password: self.password@,
            website: opt_view(self.website),
            email: opt_view(self.email),
            created_at: self.created_at@,
            updated_at: self.updated_at@,
        }
    }
}

impl View for CreatePasswordEntry {
    type V = DraftView;

    open spec fn view(&self) -> DraftView {
        DraftView {
            title: self.title@,
            username: self.username@,
            password: self.password@,
            website: opt_view(self.website),
            email: opt_view(self.email),
        }
    }
}

/// A field of a record, as named in a validation error.
#[derive(Clone, Copy, Debug, PartialEq, Eq, Structural)]
pub enum Field {
    Title,
    Username,
    Password,
    Website,
    Email,
}

/// A required field is empty, or an optional one is present but empty.
#[derive(Clone, Copy, Debug, PartialEq, Eq, Structural)]
pub struct ValidationError {
    pub field: Field,
}

/// An optional field is absent or non-empty.
pub open spec fn optional_ok(o: Option<Seq<char>>) -> bool {
    match o {
        Some(s) => s.len() > 0,
        None => true,
    }
}

/// The first field, in declaration order, that breaks the rules, if any.
pub open spec fn first_invalid(d: DraftView) -> Option<Field> {
    if d.title.len() == 0 {
        Some(Field::Title)
    } else if d.username.len() == 0 {
        Some(Field::Username)
    } else if d.password.len() == 0 {
        Some(Field::Password)
    } else if !optional_ok(d.website) {
        Some(Field::Website)
    } else if !optional_ok(d.email) {
        Some(Field::Email)
    } else {
        None
    }
}

pub open spec fn draft_valid(d: DraftView) -> bool {
    first_invalid(d) is None
}

/// The rules every stored record keeps: required fields non-empty, optional
/// ones absent or non-empty, and not updated before it was created.
pub open spec fn entry_wf(e: EntryView) -> bool {
    &&& e.title.len() > 0
    &&& e.username.len() > 0
    &&& e.password.len() > 0
    &&& optional_ok(e.website)
    &&& optional_ok(e.email)
    &&& lex_le(e.created_at, e.updated_at)
}

/// The record made from a draft, an identifier and a creation time.
pub open spec fn built(d: DraftView, id: Seq<char>, t: Seq<char>) -> EntryView {
    EntryView {
        id,
        title: d.title,
        username: d.username,
        password: d.password,
        website: d.website,
        email: d.email,
        created_at: t,
        updated_at: t,
    }
}

/// The record `e` after an edit with draft `d` at time `t`.
pub open spec fn edited(e: EntryView, d: DraftView, t: Seq<char>) -> EntryView {
    EntryView {
        id: e.id,
        title: d.title,
        username: d.username,
        password: d.password,
        website: d.website,
        email: d.email,
        created_at: e.created_at,
        updated_at: t,
    }
}

/// A draft that has passed validation.
pub struct ValidDraft {
    draft: CreatePasswordEntry,
}

impl View for ValidDraft {
    type V = DraftView;

    closed spec fn view(&self) -> DraftView {
        self.draft@
    }
}

impl ValidDraft {
    #[verifier::type_invariant]
    spec fn inv(&self) -> bool {
        draft_valid(self.draft@)
    }

    /// The validated draft.
    pub fn draft(&self) -> (r: &CreatePasswordEntry)
        ensures
            r@ == self@,
            draft_valid(r@),
    {
        proof {
            use_type_invariant(self);
        }
        &self.draft
    }

    /// Gives the validated draft back.
    pub fn into_draft(self) -> (r: CreatePasswordEntry)
        ensures
            r@ == self@,
            draft_valid(r@),
    {
        proof {
            use_type_invariant(&self);
        }
        self.draft
    }
}

fn optional_present_empty(o: &Option<String>) -> (r: bool)
    ensures
        r == !optional_ok(opt_view(*o)),
{
    match o {
        Some(s) => s.as_str().is_empty(),
        None => false,
    }
}

/// Finds the first field of `draft` that breaks the rules.
fn check_fields(draft: &CreatePasswordEntry) -> (r: Option<Field>)
    ensures
        r == first_invalid(draft@),
{
    if draft.title.as_str().is_empty() {
        Some(Field::Title)
    } else if draft.username.as_str().is_empty() {
        Some(Field::Username)
    } else if draft.password.as_str().is_empty() {
        Some(Field::Password)
    } else if optional_present_empty(&draft.website) {
        Some(Field::Website)
    } else if optional_present_empty(&draft.email) {
        Some(Field::Email)
    } else {
        None
    }
}

/// Checks a draft field by field and stops at the first field that breaks
/// the rules, which the error names.
pub fn validate(draft: CreatePasswordEntry) -> (r: Result<ValidDraft, ValidationError>)
    ensures
        r is Ok <==> draft_valid(draft@),
        r matches Ok(v) ==> v@ == draft@,
        r matches Err(e) ==> first_invalid(draft@) == Some(e.field),
{
    match check_fields(&draft) {
        Some(field) => Err(ValidationError { field }),
        None => Ok(ValidDraft { draft }),
    }
}

fn copy_text(s: &String) -> (r: String)
    ensures
        r@ == s@,
{
    s.clone()
}

fn copy_optional(o: &Option<String>) -> (r: Option<String>)
    ensures
        opt_view(r) == opt_view(*o),
{
    match o {
        Some(s) => Some(s.clone()),
        None => None,
    }
}

/// Assembles a record from a validated draft: created and updated at `timestamp`.
pub fn build(valid: ValidDraft, id: String, timestamp: String) -> (r: PasswordEntry)
    ensures
        r@ == built(valid@, id@, timestamp@),
        entry_wf(r@),
{
    let d = valid.into_draft();
    proof {
        lemma_lex_le_refl(timestamp@);
    }
    let created_at = copy_text(&timestamp);
    PasswordEntry {
        id,
        title: d.title,
        username: d.username,
        password: d.password,
        website: d.website,
        email: d.email,
        created_at,
        updated_at: timestamp,
    }
}

/// Why a record could not be created or edited.
#[derive(Clone, Copy, Debug, PartialEq, Eq, Structural)]
pub enum EntryError {
    /// The draft breaks the rules.
    Invalid(ValidationError),
    /// No identifier or timestamp could be made.
    Unavailable(GenerationError),
}

/// Validates a draft and, if it is valid, builds a record from it with a
/// fresh identifier and the current time of `clock`. Validation comes first:
/// an invalid draft touches neither the random source nor the clock.
pub fn create_entry(draft: CreatePasswordEntry, clock: &mut Clock) -> (r: Result<PasswordEntry, EntryError>)
    ensures
        !draft_valid(draft@) <==> r matches Err(EntryError::Invalid(_)),
        r matches Err(EntryError::Invalid(e)) ==> first_invalid(draft@) == Some(e.field)
            && final(clock)@ == old(clock)@,
        r matches Err(EntryError::Unavailable(_)) ==> final(clock)@ == old(clock)@,
        r matches Ok(e) ==> {
            &&& e@ == built(draft@, e@.id, e@.created_at)
            &&& is_canonical_id(e@.id)
            &&& is_utc_stamp(e@.created_at)
            &&& lex_le(old(clock)@, e@.created_at)
            &&& final(clock)@ == e@.created_at
            &&& entry_wf(e@)
        },
{
    let valid = match validate(draft) {
        Ok(v) => v,
        Err(e) => return Err(EntryError::Invalid(e)),
    };
    let id = match generate_id() {
        Ok(id) => id,
        Err(g) => return Err(EntryError::Unavailable(g)),
    };
    let now = match get_current_time(clock) {
        Ok(t) => t,
        Err(g) => return Err(EntryError::Unavailable(g)),
    };
    Ok(build(valid, id, now))
}

/// Edits a record with a new draft at the current time of `clock`. When the
/// record keeps the rules and was stamped no later than the clock's last
/// value (as it is when the same clock stamped it), so does the result, even
/// if the wall clock was set back in between.
pub fn edit_entry(entry: &PasswordEntry, draft: CreatePasswordEntry, clock: &mut Clock) -> (r: Result<PasswordEntry, EntryError>)
    ensures
        !draft_valid(draft@) <==> r matches Err(EntryError::Invalid(_)),
        r matches Err(EntryError::Invalid(e)) ==> first_invalid(draft@) == Some(e.field)
            && final(clock)@ == old(clock)@,
        r matches Err(EntryError::Unavailable(_)) ==> final(clock)@ == old(clock)@,
        r matches Ok(e) ==> {
            &&& e@ == edited(entry@, draft@, e@.updated_at)
            &&& is_utc_stamp(e@.updated_at)
            &&& lex_le(old(clock)@, e@.updated_at)
            &&& final(clock)@ == e@.updated_at
            &&& (entry_wf(entry@) && lex_le(entry@.updated_at, old(clock)@) ==> entry_wf(e@))
        },
{
    let valid = match validate(draft) {
        Ok(v) => v,
        Err(e) => return Err(EntryError::Invalid(e)),
    };
    let now = match get_current_time(clock) {
        Ok(t) => t,
        Err(g) => return Err(EntryError::Unavailable(g)),
    };
    proof {
        lemma_lex_le_refl(now@);
        if entry_wf(entry@) && lex_le(entry@.updated_at, old(clock)@) {
            lemma_lex_le_trans(entry@.updated_at, old(clock)@, now@);
        }
    }
    match apply_edit(entry, valid.into_draft(), now) {
        Ok(e) => Ok(e),
        Err(e) => Err(EntryError::Invalid(e)),
    }
}

/// Re-validates a record against a new draft: the identifier and creation
/// time stay, the other fields come from the draft, and the update time
/// becomes `timestamp`. On an invalid draft nothing changes and the error
/// names the first offending field.
pub fn apply_edit(entry: &PasswordEntry, draft: CreatePasswordEntry, timestamp: String) -> (r: Result<PasswordEntry, ValidationError>)
    ensures
        r is Ok <==> draft_valid(draft@),
        r matches Err(e) ==> first_invalid(draft@) == Some(e.field),
        r matches Ok(e) ==> e@ == edited(entry@, draft@, timestamp@),
        r matches Ok(e) ==> (entry_wf(entry@) && lex_le(entry@.updated_at, timestamp@) ==> entry_wf(e@)),
{
    proof {
        if entry_wf(entry@) && lex_le(entry@.updated_at, timestamp@) {
            lemma_lex_le_trans(entry@.created_at, entry@.updated_at, timestamp@);
        }
    }
    let d = validate(draft)?.into_draft();
    Ok(PasswordEntry {
        id: copy_text(&entry.id),
        title: d.title,
        username: d.username,
        password: d.password,
        website: d.website,
        email: d.email,
        created_at: copy_text(&entry.created_at),
        updated_at: timestamp,
    })
}

/// A record built from a valid draft was created and last updated at the
/// same time, carries the given identifier, echoes every draft field
/// unchanged, and keeps the record rules.
pub proof fn lemma_build_echoes_draft(d: DraftView, id: Seq<char>, t: Seq<char>)
    requires
        draft_valid(d),
    ensures
        built(d, id, t).created_at == built(d, id, t).updated_at,
        built(d, id, t).id == id,
        built(d, id, t).title == d.title,
        built(d, id, t).username == d.username,
        built(d, id, t).password == d.password,
        built(d, id, t).website == d.website,
        built(d, id, t).email == d.email,
        entry_wf(built(d, id, t)),
{
    lemma_lex_le_refl(t);
}

/// Validation rejects an empty title, username or password with an error
/// naming that field (the first such field in that order), and accepts a
/// draft whose required fields are filled and whose optional fields are absent.
pub proof fn lemma_validation_names_field(d: DraftView)
    ensures
        d.title.len() == 0 ==> first_invalid(d) == Some(Field::Title),
        d.title.len() > 0 && d.username.len() == 0 ==> first_invalid(d) == Some(Field::Username),
        d.title.len() > 0 && d.username.len() > 0 && d.password.len() == 0 ==> first_invalid(d)
            == Some(Field::Password),
        d.title.len() > 0 && d.username.len() > 0 && d.password.len() > 0 && d.website is None
            && d.email is None ==> draft_valid(d),
{
}

/// An edit keeps the identifier and creation time, takes every other field
/// from the new draft, and moves the update time strictly forward to the
/// edit time; a record that kept the rules still keeps them.
pub proof fn lemma_edit_advances(e: EntryView, d: DraftView, t: Seq<char>)
    requires
        entry_wf(e),
        draft_valid(d),
        lex_lt(e.updated_at, t),
    ensures
        edited(e, d, t).id == e.id,
        edited(e, d, t).created_at == e.created_at,
        edited(e, d, t).updated_at == t,
        lex_lt(e.updated_at, edited(e, d, t).updated_at),
        edited(e, d, t).title == d.title,
        edited(e, d, t).username == d.username,
        edited(e, d, t).password == d.password,
        edited(e, d, t).website == d.website,
        edited(e, d, t).email == d.email,
        entry_wf(edited(e, d, t)),
{
    lemma_lex_le_trans(e.created_at, e.updated_at, t);
}

} // verus!
