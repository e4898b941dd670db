//! Pull-request records and their decoding from JSON.
//!
//! The input is a JSON array of objects. Each object must carry `id`,
//! `number`, `url`, `state`, `isCrossRepository`, `baseRefName` and
//! `headRefName`; `title` may be missing or `null`; `headRepositoryOwner`
//! with its `login` is read, and required, only when `isCrossRepository` is
//! true. Members that the decoder does not know are ignored.

use crate::json::{document_model, json_model, member, models, parse_document, JsonModel};
use serde_json::Value;
use crate::text::{decimal, decimal_text};
use vstd::prelude::*;
use vstd::string::*;

verus! {

/// The account that owns the repository in which a head branch lives.
#[derive(Debug)]
pub struct HeadRepositoryOwner {
    pub login: String,
}

/// One pull request.
///
/// `head_repository_owner` is present exactly for a cross-repository pull
/// request, one whose head branch lives in a fork.
#[derive(Debug)]
pub struct Pr {
    pub id: String,
    pub number: u32,
    pub title: Option<String>,
    pub url: String,
    pub state: String,
    pub base_ref_name: String,
    pub head_ref_name: String,
    pub head_repository_owner: Option<HeadRepositoryOwner>,
}

/// The mathematical content of a [`Pr`].
pub struct PrView {
    pub id: Seq<char>,
    pub number: u32,
    pub title: Option<Seq<char>>,
    pub url: Seq<char>,
    pub state: Seq<char>,
    pub base_ref_name: Seq<char>,
    pub head_ref_name: Seq<char>,
    /// The login of the head repository's owner, for a cross-repository pull
    /// request only.
    pub owner_login: Option<Seq<char>>,
}

impl View for Pr {
    type V = PrView;

    open spec fn view(&self) -> PrView {
        PrView {
            id: self.id@,
            number: self.number,
            title: match self.title {
                Some(t) => Some(t@),
                None => None,
            },
            url: self.url@,
            state: self.state@,
            base_ref_name: self.base_ref_name@,
            head_ref_name: self.head_ref_name@,
            owner_login: match self.head_repository_owner {
                Some(owner) => Some(owner.login@),
                None => None,
            },
        }
    }
}

impl PrView {
    /// Whether the head branch lives in another repository than the base.
    pub open spec fn is_cross_repository(self) -> bool {
        self.owner_login is Some
    }

    /// The name under which the head branch enters the graph: the plain
    /// branch name, qualified as `login/branch` for a cross-repository pull
    /// request.
    pub open spec fn effective_head(self) -> Seq<char> {
        match self.owner_login {
            Some(login) => login + seq!['/'] + self.head_ref_name,
            None => self.head_ref_name,
        }
    }

    /// The edge that the pull request contributes to the graph: its effective
    /// head name paired with its base name.
    pub open spec fn key(self) -> (Seq<char>, Seq<char>) {
        (self.effective_head(), self.base_ref_name)
    }
}

/// The views of a sequence of pull requests, in order.
pub open spec fn pr_views(prs: Seq<Pr>) -> Seq<PrView> {
    prs.map_values(|pr: Pr| pr@)
}

impl Pr {
    /// Whether the head branch lives in another repository than the base.
    pub fn is_cross_repository(&self) -> (r: bool)
        ensures
            r == self@.is_cross_repository(),
    {
        self.head_repository_owner.is_some()
    }

    /// The name under which the head branch enters the graph.
    pub fn effective_head(&self) -> (r: String)
        ensures
            r@ == self@.effective_head(),
    {
        match &self.head_repository_owner {
            Some(owner) => {
                proof {
                    reveal_strlit("/");
                }
                let mut name = owner.login.clone();
                name.append("/");
                name.append(self.head_ref_name.as_str());
                assert("/"@ =~= seq!['/']);
                name
            },
            None => self.head_ref_name.clone(),
        }
    }
}

/// A member of a pull-request object.
#[derive(Clone, Copy, Debug, PartialEq, Eq, Structural)]
pub enum Field {
    Id,
    Number,
    Title,
    Url,
    State,
    IsCrossRepository,
    BaseRefName,
    HeadRefName,
    HeadRepositoryOwner,
    Login,
}

impl Field {
    /// The key under which the member is stored.
    pub open spec fn key(self) -> Seq<char> {
        match self {
            Field::Id => "id"@,
            Field::Number => "number"@,
            Field::Title => "title"@,
            Field::Url => "url"@,
            Field::State => "state"@,
            Field::IsCrossRepository => "isCrossRepository"@,
            Field::BaseRefName => "baseRefName"@,
            Field::HeadRefName => "headRefName"@,
            Field::HeadRepositoryOwner => "headRepositoryOwner"@,
            Field::Login => "login"@,
        }
    }

    /// The key under which the member is stored.
    pub fn name(self) -> (r: &'static str)
        ensures
            r@ == self.key(),
    {
        match self {
            Field::Id => "id",
            Field::Number => "number",
            Field::Title => "title",
            Field::Url => "url",
            Field::State => "state",
            Field::IsCrossRepository => "isCrossRepository",
            Field::BaseRefName => "baseRefName",
            Field::HeadRefName => "headRefName",
            Field::HeadRepositoryOwner => "headRepositoryOwner",
            Field::Login => "login",
        }
    }
}

/// Why a well-formed JSON document is not a list of pull requests. `index`
/// is the position of the offending record in the array.
#[derive(Clone, Copy, Debug, PartialEq, Eq, Structural)]
pub enum ShapeError {
    /// The document is not an array.
    NotAnArray,
    /// An element of the array is not an object.
    NotAnObject { index: usize },
    /// A required member is missing from a record.
    Missing { index: usize, field: Field },
    /// A member is present but has the wrong type, or is a number that does
    /// not fit the member's integer type.
    Mistyped { index: usize, field: Field },
}

/// Why a text could not be decoded into pull requests.
#[derive(Debug)]
pub enum DecodeError {
    /// The text is not well-formed JSON; the message is the parser's.
    Syntax(String),
    /// The text is JSON of the wrong shape.
    Shape(ShapeError),
}

/// A required string member of a record.
pub open spec fn text_member(
    fields: Map<Seq<char>, JsonModel>,
    index: usize,
    field: Field,
) -> Result<Seq<char>, ShapeError> {
    if !fields.contains_key(field.key()) {
        Err(ShapeError::Missing { index, field })
    } else {
        match fields[field.key()] {
            JsonModel::Text(s) => Ok(s),
            _ => Err(ShapeError::Mistyped { index, field }),
        }
    }
}

/// The pull-request number of a record: a non-negative integer below 2^32.
pub open spec fn number_member(fields: Map<Seq<char>, JsonModel>, index: usize) -> Result<
    u32,
    ShapeError,
> {
    let field = Field::Number;
    if !fields.contains_key(field.key()) {
        Err(ShapeError::Missing { index, field })
    } else {
        match fields[field.key()] {
            JsonModel::Number { unsigned: Some(n) } => if n <= u32::MAX {
                Ok(n as u32)
            } else {
                Err(ShapeError::Mistyped { index, field })
            },
            _ => Err(ShapeError::Mistyped { index, field }),
        }
    }
}

/// The title of a record: absent when the member is missing or `null`.
pub open spec fn title_member(fields: Map<Seq<char>, JsonModel>, index: usize) -> Result<
    Option<Seq<char>>,
    ShapeError,
> {
    let field = Field::Title;
    if !fields.contains_key(field.key()) {
        Ok(None)
    } else {
        match fields[field.key()] {
            JsonModel::Null => Ok(None),
            JsonModel::Text(s) => Ok(Some(s)),
            _ => Err(ShapeError::Mistyped { index, field }),
        }
    }
}

/// The cross-repository flag of a record.
pub open spec fn flag_member(fields: Map<Seq<char>, JsonModel>, index: usize) -> Result<
    bool,
    ShapeError,
> {
    let field = Field::IsCrossRepository;
    if !fields.contains_key(field.key()) {
        Err(ShapeError::Missing { index, field })
    } else {
        match fields[field.key()] {
            JsonModel::Bool(b) => Ok(b),
            _ => Err(ShapeError::Mistyped { index, field }),
        }
    }
}

/// The owner login of a record, read only when the record is cross-repository.
pub open spec fn owner_member(
    fields: Map<Seq<char>, JsonModel>,
    index: usize,
    cross: bool,
) -> Result<Option<Seq<char>>, ShapeError> {
    let field = Field::HeadRepositoryOwner;
    if !cross {
        Ok(None)
    } else if !fields.contains_key(field.key()) {
        Err(ShapeError::Missing { index, field })
    } else {
        match fields[field.key()] {
            JsonModel::Object(owner) => match text_member(owner, index, Field::Login) {
                Ok(login) => Ok(Some(login)),
                Err(e) => Err(e),
            },
            _ => Err(ShapeError::Mistyped { index, field }),
        }
    }
}

/// The pull request that the members of an object describe, or the first
/// fault met when the members are read in the order `id`, `number`, `title`,
/// `url`, `state`, `isCrossRepository`, `baseRefName`, `headRefName`,
/// `headRepositoryOwner`.
pub open spec fn decode_members(fields: Map<Seq<char>, JsonModel>, index: usize) -> Result<
    PrView,
    ShapeError,
> {
    match text_member(fields, index, Field::Id) {
        Err(e) => Err(e),
        Ok(id) => match number_member(fields, index) {
            Err(e) => Err(e),
            Ok(number) => match title_member(fields, index) {
                Err(e) => Err(e),
                Ok(title) => match text_member(fields, index, Field::Url) {
                    Err(e) => Err(e),
                    Ok(url) => match text_member(fields, index, Field::State) {
                        Err(e) => Err(e),
                        Ok(state) => match flag_member(fields, index) {
                            Err(e) => Err(e),
                            Ok(cross) => match text_member(fields, index, Field::BaseRefName) {
                                Err(e) => Err(e),
                                Ok(base_ref_name) => match text_member(
                                    fields,
                                    index,
                                    Field::HeadRefName,
                                ) {
                                    Err(e) => Err(e),
                                    Ok(head_ref_name) => match owner_member(fields, index, cross) {
                                        Err(e) => Err(e),
                                        Ok(owner_login) => Ok(
                                            PrView {
                                                id,
                                                number,
                                                title,
                                                url,
                                                state,
                                                base_ref_name,
                                                head_ref_name,
                                                owner_login,
                                            },
                                        ),
                                    },
                                },
                            },
                        },
                    },
                },
            },
        },
    }
}

/// The pull request that one element of the array describes.
pub open spec fn decode_record(record: JsonModel, index: usize) -> Result<PrView, ShapeError> {
    match record {
        JsonModel::Object(fields) => decode_members(fields, index),
        _ => Err(ShapeError::NotAnObject { index }),
    }
}

/// The pull requests that the elements from position `from` on describe, or
/// the fault of the first element that describes none.
pub open spec fn decode_records(records: Seq<JsonModel>, from: int) -> Result<
    Seq<PrView>,
    ShapeError,
>
    decreases records.len() - from,
{
    if from < 0 || from >= records.len() {
        Ok(Seq::empty())
    } else {
        match decode_record(records[from], from as usize) {
            Err(e) => Err(e),
            Ok(pr) => match decode_records(records, from + 1) {
                Err(e) => Err(e),
                Ok(rest) => Ok(seq![pr] + rest),
            },
        }
    }
}

/// The pull requests that a JSON document describes.
pub open spec fn decode_document(document: JsonModel) -> Result<Seq<PrView>, ShapeError> {
    match document {
        JsonModel::Array(records) => decode_records(records, 0),
        _ => Err(ShapeError::NotAnArray),
    }
}

/// The members of an object, and no members for any other value.
pub open spec fn members(value: JsonModel) -> Map<Seq<char>, JsonModel> {
    match value {
        JsonModel::Object(fields) => fields,
        _ => Map::empty(),
    }
}

fn read_text(record: &Value, index: usize, field: Field) -> (r: Result<String, ShapeError>)
    requires
        json_model(*record) is Object,
    ensures
        match r {
            Ok(s) => text_member(members(json_model(*record)), index, field) == Ok::<
                Seq<char>,
                ShapeError,
            >(s@),
            Err(e) => text_member(members(json_model(*record)), index, field) == Err::<
                Seq<char>,
                ShapeError,
            >(e),
        },
{
    match member(record, field.name()) {
        None => Err(ShapeError::Missing { index, field }),
        Some(found) => match found.as_str() {
            Some(s) => Ok(s.to_owned()),
            None => Err(ShapeError::Mistyped { index, field }),
        },
    }
}

fn read_number(record: &Value, index: usize) -> (r: Result<u32, ShapeError>)
    requires
        json_model(*record) is Object,
    ensures
        r == number_member(members(json_model(*record)), index),
{
    let field = Field::Number;
    match member(record, field.name()) {
        None => Err(ShapeError::Missing { index, field }),
        Some(found) => match found.as_u64() {
            Some(n) => if n <= 0xffff_ffff {
                Ok(n as u32)
            } else {
                Err(ShapeError::Mistyped { index, field })
            },
            None => Err(ShapeError::Mistyped { index, field }),
        },
    }
}

fn read_title(record: &Value, index: usize) -> (r: Result<Option<String>, ShapeError>)
    requires
        json_model(*record) is Object,
    ensures
        match r {
            Ok(Some(s)) => title_member(members(json_model(*record)), index) == Ok::<
                Option<Seq<char>>,
                ShapeError,
            >(Some(s@)),
            Ok(None) => title_member(members(json_model(*record)), index) == Ok::<
                Option<Seq<char>>,
                ShapeError,
            >(None),
            Err(e) => title_member(members(json_model(*record)), index) == Err::<
                Option<Seq<char>>,
                ShapeError,
            >(e),
        },
{
    let field = Field::Title;
    match member(record, field.name()) {
        None => Ok(None),
        Some(found) => if found.is_null() {
            Ok(None)
        } else {
            match found.as_str() {
                Some(s) => Ok(Some(s.to_owned())),
                None => Err(ShapeError::Mistyped { index, field }),
            }
        },
    }
}

fn read_flag(record: &Value, index: usize) -> (r: Result<bool, ShapeError>)
    requires
        json_model(*record) is Object,
    ensures
        r == flag_member(members(json_model(*record)), index),
{
    let field = Field::IsCrossRepository;
    match member(record, field.name()) {
        None => Err(ShapeError::Missing { index, field }),
        Some(found) => match found.as_bool() {
            Some(b) => Ok(b),
            None => Err(ShapeError::Mistyped { index, field }),
        },
    }
}

fn read_owner(record: &Value, index: usize, cross: bool) -> (r: Result<
    Option<HeadRepositoryOwner>,
    ShapeError,
>)
    requires
        json_model(*record) is Object,
    ensures
        match r {
            Ok(Some(owner)) => owner_member(members(json_model(*record)), index, cross) == Ok::<
                Option<Seq<char>>,
                ShapeError,
            >(Some(owner.login@)),
            Ok(None) => owner_member(members(json_model(*record)), index, cross) == Ok::<
                Option<Seq<char>>,
                ShapeError,
            >(None),
            Err(e) => owner_member(members(json_model(*record)), index, cross) == Err::<
                Option<Seq<char>>,
                ShapeError,
            >(e),
        },
{
    let field = Field::HeadRepositoryOwner;
    if !cross {
        return Ok(None);
    }
    match member(record, field.name()) {
        None => Err(ShapeError::Missing { index, field }),
        Some(found) => if found.is_object() {
            match read_text(found, index, Field::Login) {
                Ok(login) => Ok(Some(HeadRepositoryOwner { login })),
                Err(e) => Err(e),
            }
        } else {
            Err(ShapeError::Mistyped { index, field })
        },
    }
}

/// Decodes one element of the array, at position `index`, into a pull
/// request.
pub fn decode_pr(record: &Value, index: usize) -> (r: Result<Pr, ShapeError>)
    ensures
        match r {
            Ok(pr) => decode_record(json_model(*record), index) == Ok::<PrView, ShapeError>(pr@),
            Err(e) => decode_record(json_model(*record), index) == Err::<PrView, ShapeError>(e),
        },
{
    if !record.is_object() {
        return Err(ShapeError::NotAnObject { index });
    }
    let id = match read_text(record, index, Field::Id) {
        Ok(x) => x,
        Err(e) => { return Err(e); },
    };
    let number = match read_number(record, index) {
        Ok(x) => x,
        Err(e) => { return Err(e); },
    };
    let title = match read_title(record, index) {
        Ok(x) => x,
        Err(e) => { return Err(e); },
    };
    let url = match read_text(record, index, Field::Url) {
        Ok(x) => x,
        Err(e) => { return Err(e); },
    };
    let state = match read_text(record, index, Field::State) {
        Ok(x) => x,
        Err(e) => { return Err(e); },
    };
    let cross = match read_flag(record, index) {
        Ok(x) => x,
        Err(e) => { return Err(e); },
    };
    let base_ref_name = match read_text(record, index, Field::BaseRefName) {
        Ok(x) => x,
        Err(e) => { return Err(e); },
    };
    let head_ref_name = match read_text(record, index, Field::HeadRefName) {
        Ok(x) => x,
        Err(e) => { return Err(e); },
    };
    let head_repository_owner = match read_owner(record, index, cross) {
        Ok(x) => x,
        Err(e) => { return Err(e); },
    };
    Ok(Pr { id, number, title, url, state, base_ref_name, head_ref_name, head_repository_owner })
}

/// Decodes a parsed JSON document into the pull requests it lists, in the
/// order of the array. The whole document is rejected with the fault of the
/// first record that does not decode.
pub fn decode_pr_list(document: &Value) -> (r: Result<Vec<Pr>, ShapeError>)
    ensures
        match r {
            Ok(prs) => decode_document(json_model(*document)) == Ok::<Seq<PrView>, ShapeError>(
                pr_views(prs@),
            ),
            Err(e) => decode_document(json_model(*document)) == Err::<Seq<PrView>, ShapeError>(e),
        },
{
    let records = match document.as_array() {
        Some(records) => records,
        None => { return Err(ShapeError::NotAnArray); },
    };
    let ghost all = models(records@);
    let mut prs: Vec<Pr> = Vec::new();
    let mut i: usize = 0;
    while i < records.len()
        invariant
            i <= records.len(),
            all == models(records@),
            json_model(*document) == JsonModel::Array(all),
            decode_records(all, 0) == match decode_records(all, i as int) {
                Ok(rest) => Ok::<Seq<PrView>, ShapeError>(pr_views(prs@) + rest),
                Err(e) => Err(e),
            },
        decreases records.len() - i,
    {
        assert(all[i as int] == json_model(records@[i as int]));
        match decode_pr(&records[i], i) {
            Err(e) => { return Err(e); },
            Ok(pr) => {
                proof {
                    let before = pr_views(prs@);
                    let after = pr_views(prs@.push(pr));
                    assert(after =~= before.push(pr@));
                    match decode_records(all, i + 1) {
                        Ok(rest) => {
                            assert(before + (seq![pr@] + rest) =~= after + rest);
                        },
                        Err(_) => {},
                    }
                }
                prs.push(pr);
                i += 1;
            },
        }
    }
    proof {
        assert(pr_views(prs@) + Seq::<PrView>::empty() =~= pr_views(prs@));
    }
    Ok(prs)
}

/// Decodes a JSON text into the pull requests it lists.
///
/// Fails with [`DecodeError::Syntax`] exactly when the text is not
/// well-formed JSON, and with [`DecodeError::Shape`] exactly when it is
/// well-formed but not an array of pull-request objects; the fault is that of
/// the first offending record.
pub fn parse_pr_list(json: &str) -> (r: Result<Vec<Pr>, DecodeError>)
    ensures
        match document_model(json@) {
            None => r matches Err(DecodeError::Syntax(_)),
            Some(document) => match decode_document(document) {
                Ok(views) => r matches Ok(prs) && pr_views(prs@) == views,
                Err(e) => r matches Err(DecodeError::Shape(fault)) && fault == e,
            },
        },
{
    match parse_document(json) {
        Err(message) => Err(DecodeError::Syntax(message)),
        Ok(document) => match decode_pr_list(&document) {
            Ok(prs) => Ok(prs),
            Err(e) => Err(DecodeError::Shape(e)),
        },
    }
}

impl Field {
    /// Whether every record must carry the member.
    pub open spec fn is_required(self) -> bool {
        self is Id || self is Number || self is Url || self is State || self is IsCrossRepository
            || self is BaseRefName || self is HeadRefName
    }
}

/// A record that lacks a required member does not decode.
pub proof fn lemma_record_needs_member(record: JsonModel, index: usize, field: Field)
    requires
        field.is_required(),
        !members(record).contains_key(field.key()),
    ensures
        decode_record(record, index) is Err,
{
    match record {
        JsonModel::Object(fields) => {
            match field {
                Field::Id => {
                    assert(text_member(fields, index, Field::Id) is Err);
                },
                Field::Number => {
                    assert(number_member(fields, index) is Err);
                },
                Field::Url => {
                    assert(text_member(fields, index, Field::Url) is Err);
                },
                Field::State => {
                    assert(text_member(fields, index, Field::State) is Err);
                },
                Field::IsCrossRepository => {
                    assert(flag_member(fields, index) is Err);
                },
                Field::BaseRefName => {
                    assert(text_member(fields, index, Field::BaseRefName) is Err);
                },
                _ => {
                    assert(text_member(fields, index, Field::HeadRefName) is Err);
                },
            }
        },
        _ => {},
    }
}

/// A list with a record that does not decode is rejected as a whole.
pub proof fn lemma_fault_rejects_list(records: Seq<JsonModel>, from: int, i: int)
    requires
        0 <= from <= i < records.len(),
        decode_record(records[i], i as usize) is Err,
    ensures
        decode_records(records, from) is Err,
    decreases i - from,
{
    if from < i {
        lemma_fault_rejects_list(records, from + 1, i);
    }
}

/// Decoding fails, for the whole array, when any record lacks one of the
/// required members `id`, `number`, `url`, `state`, `isCrossRepository`,
/// `baseRefName` and `headRefName`.
pub proof fn lemma_missing_member_rejects(records: Seq<JsonModel>, i: int, field: Field)
    requires
        0 <= i < records.len(),
        field.is_required(),
        !members(records[i]).contains_key(field.key()),
    ensures
        decode_document(JsonModel::Array(records)) is Err,
{
    lemma_record_needs_member(records[i], i as usize, field);
    lemma_fault_rejects_list(records, 0, i);
}

/// A record without a `title` member, or with `null` for it, decodes to a
/// pull request whose title is absent, not to one with an empty title.
pub proof fn lemma_missing_title_is_absent(record: JsonModel, index: usize)
    requires
        !members(record).contains_key(Field::Title.key()) || members(record)[Field::Title.key()]
            is Null,
        decode_record(record, index) is Ok,
    ensures
        decode_record(record, index)->Ok_0.title is None,
{
}

impl ShapeError {
    /// The fault in words.
    pub open spec fn text(self) -> Seq<char> {
        match self {
            ShapeError::NotAnArray => "expected an array of pull requests"@,
            ShapeError::NotAnObject { index } => "record "@ + decimal(index as nat)
                + ": expected an object"@,
            ShapeError::Missing { index, field } => "record "@ + decimal(index as nat)
                + ": missing member `"@ + field.key() + "`"@,
            ShapeError::Mistyped { index, field } => "record "@ + decimal(index as nat)
                + ": member `"@ + field.key() + "` has the wrong type"@,
        }
    }

    /// Describes the fault in words, naming the record and the member.
    pub fn message(&self) -> (r: String)
        ensures
            r@ == self.text(),
    {
        match *self {
            ShapeError::NotAnArray => String::from_str("expected an array of pull requests"),
            ShapeError::NotAnObject { index } => {
                let mut r = String::from_str("record ");
                r.append(decimal_text(index as u64).as_str());
                r.append(": expected an object");
                r
            },
            ShapeError::Missing { index, field } => {
                let mut r = String::from_str("record ");
                r.append(decimal_text(index as u64).as_str());
                r.append(": missing member `");
                r.append(field.name());
                r.append("`");
                r
            },
            ShapeError::Mistyped { index, field } => {
                let mut r = String::from_str("record ");
                r.append(decimal_text(index as u64).as_str());
                r.append(": member `");
                r.append(field.name());
                r.append("` has the wrong type");
                r
            },
        }
    }
}

impl DecodeError {
    /// Describes the error in words: the parser's message for a syntax error,
    /// and the fault of the offending record otherwise.
    pub fn message(&self) -> (r: String)
        ensures
            match *self {
                DecodeError::Syntax(message) => r@ == message@,
                DecodeError::Shape(fault) => r@ == fault.text(),
            },
    {
        match self {
            DecodeError::Syntax(message) => message.clone(),
            DecodeError::Shape(fault) => fault.message(),
        }
    }
}

} // verus!
