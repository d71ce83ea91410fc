//! Reading the request for a post from the fields of an HTML form.

use vstd::prelude::*;
use crate::model::{CreatePostRequest, CreatePostRequestView, Timestamp};
use crate::text::{decimal_i32, join, number_fault, parse_i32, same_text};

verus! {

/// The pieces into which the matches of the regular expression `pattern`
/// cut `text`, or `None` where `pattern` is no regular expression.
pub uninterp spec fn regex_split(pattern: Seq<char>, text: Seq<char>) -> Option<Seq<Seq<char>>>;

/// Cuts `text` at the matches of `pattern`. Compiles the pattern with
/// `regex::Regex::new` and collects what `Regex::split` yields: the parts of
/// the text that lie between the matches, in order, empty parts included.
/// Both depend on their arguments alone.
#[verifier::external_body]
fn split_by_pattern(pattern: &str, text: &str) -> (pieces: Option<Vec<String>>)
    ensures
        pieces.deep_view() == regex_split(pattern@, text@),
{
    match regex::Regex::new(pattern) {
        Ok(re) => Some(re.split(text).map(|piece| piece.to_string()).collect()),
        Err(_) => None,
    }
}

/// What URL decoding makes of `raw`: the text with every `+` turned into a
/// space and every percent escape into its byte, or the words that say why
/// those bytes are no text.
pub uninterp spec fn url_decoded(raw: Seq<char>) -> Result<Seq<char>, Seq<char>>;

/// Decodes a form value. Calls `rocket::http::RawStr::url_decode`, which
/// replaces each `+` by a space, then each percent escape by its byte, and
/// fails where the bytes are not UTF-8; the failure is handed on in the
/// words of its `Display`. The result depends on the argument alone.
#[verifier::external_body]
fn url_decode(raw: &str) -> (decoded: Result<String, String>)
    ensures
        match url_decoded(raw@) {
            Ok(text) => decoded matches Ok(t) && t@ == text,
            Err(why) => decoded matches Err(w) && w@ == why,
        },
{
    match rocket::http::RawStr::new(raw).url_decode() {
        Ok(text) => Ok(text.into_owned()),
        Err(why) => Err(why.to_string()),
    }
}

/// The fields of a form: names with their values, in the order of the form.
pub type FormFields = Seq<(Seq<char>, Seq<char>)>;

/// The fields of a form with their values decoded, the names as they are;
/// or why the first value that cannot be decoded cannot.
pub open spec fn decoded_fields(raw: FormFields) -> Result<FormFields, Seq<char>>
    decreases raw.len(),
{
    if raw.len() == 0 {
        Ok(Seq::empty())
    } else {
        match decoded_fields(raw.drop_last()) {
            Err(why) => Err(why),
            Ok(before) => match url_decoded(raw.last().1) {
                Ok(value) => Ok(before.push((raw.last().0, value))),
                Err(why) => Err(why),
            },
        }
    }
}

/// Once a value could not be decoded, the fields after it are not looked at.
pub proof fn lemma_decoding_stops(raw: FormFields, i: int)
    requires
        0 <= i <= raw.len(),
        decoded_fields(raw.take(i)) is Err,
    ensures
        decoded_fields(raw) == decoded_fields(raw.take(i)),
    decreases raw.len() - i,
{
    if i == raw.len() {
        assert(raw.take(i) =~= raw);
    } else {
        assert(raw.take(i + 1).drop_last() =~= raw.take(i));
        lemma_decoding_stops(raw, i + 1);
    }
}

/// What a form with encoded values asks for: what its decoded fields ask
/// for, or why the first value that cannot be decoded cannot.
pub open spec fn encoded_form_request(raw: FormFields, now: Timestamp) -> Result<CreatePostRequestView, Seq<char>> {
    match decoded_fields(raw) {
        Ok(fields) => form_request(fields, now),
        Err(why) => Err(why),
    }
}

/// The value that a form gives to the field `key`: that of the last field
/// with this name.
pub open spec fn form_value(fields: FormFields, key: Seq<char>) -> Option<Seq<char>>
    decreases fields.len(),
{
    if fields.len() == 0 {
        None
    } else if fields.last().0 == key {
        Some(fields.last().1)
    } else {
        form_value(fields.drop_last(), key)
    }
}

/// The first of the fields that a post needs and the form lacks, in the
/// order title, content, tags, owner_id. The field published is not among
/// them: a form may leave it out.
pub open spec fn missing_field(fields: FormFields) -> Option<Seq<char>> {
    if form_value(fields, "title"@) is None {
        Some("title"@)
    } else if form_value(fields, "content"@) is None {
        Some("content"@)
    } else if form_value(fields, "tags"@) is None {
        Some("tags"@)
    } else if form_value(fields, "owner_id"@) is None {
        Some("owner_id"@)
    } else {
        None
    }
}

/// Whether a form asks for a published post: its field published is
/// exactly `true`. A form without that field, or with any other value in
/// it, asks for a draft.
pub open spec fn asks_published(fields: FormFields) -> bool {
    match form_value(fields, "published"@) {
        Some(value) => value == "true"@,
        None => false,
    }
}

/// The pattern at whose matches the tags of a form are cut: one
/// whitespace character.
pub open spec fn tag_separator() -> Seq<char> {
    "\\s"@
}

/// What a form asks for, given the pieces into which its field of tags was
/// cut (`None`: it could not be cut): the request for a post created at
/// `now`, or the words that say what is wrong with the form.
pub open spec fn form_request_with(
    fields: FormFields,
    pieces: Option<Seq<Seq<char>>>,
    now: Timestamp,
) -> Result<CreatePostRequestView, Seq<char>> {
    if missing_field(fields) is Some {
        Err("Missing form parameter: "@ + missing_field(fields).unwrap())
    } else {
        let owner = form_value(fields, "owner_id"@).unwrap();
        match pieces {
            None => Err("Failed to split tags"@),
            Some(tags) => match decimal_i32(owner) {
                None => Err(
                    "Failed to parse owner ID: "@ + number_fault(
                        owner,
                        i32::MIN as int,
                        i32::MAX as int,
                    ).spec_description(),
                ),
                Some(owner_id) => Ok(
                    CreatePostRequestView {
                        title: form_value(fields, "title"@).unwrap(),
                        content: form_value(fields, "content"@).unwrap(),
                        tags,
                        owner_id,
                        created_on: now,
                        published: asks_published(fields),
                    },
                ),
            },
        }
    }
}

/// The pieces into which the field of tags of a form is cut: at every
/// whitespace character. `None` for a form without that field.
pub open spec fn tag_pieces(fields: FormFields) -> Option<Seq<Seq<char>>> {
    match form_value(fields, "tags"@) {
        Some(text) => regex_split(tag_separator(), text),
        None => None,
    }
}

/// What a form asks for: the request for a post created at `now`, or the
/// words that say what is wrong with the form.
pub open spec fn form_request(fields: FormFields, now: Timestamp) -> Result<CreatePostRequestView, Seq<char>> {
    form_request_with(fields, tag_pieces(fields), now)
}

/// The value that `items` gives to the field `key`.
pub fn field_value(items: &Vec<(String, String)>, key: &str) -> (value: Option<String>)
    ensures
        value.deep_view() == form_value(items.deep_view(), key@),
{
    let mut i: usize = items.len();
    assert(items.deep_view().take(i as int) =~= items.deep_view());
    while i > 0
        invariant
            i <= items.len(),
            form_value(items.deep_view(), key@) == form_value(items.deep_view().take(i as int), key@),
        decreases i,
    {
        i -= 1;
        proof {
            let shown = items.deep_view().take(i + 1);
            assert(shown.drop_last() =~= items.deep_view().take(i as int));
        }
        if same_text(items[i].0.as_str(), key) {
            return Some(items[i].1.clone());
        }
    }
    None
}

/// Decodes the values of the fields of a form, in the order of the form,
/// and stops at the first that cannot be decoded. The names stay as they are.
pub fn decode_form_items(raw: &Vec<(String, String)>) -> (decoded: Result<Vec<(String, String)>, String>)
    ensures
        match decoded_fields(raw.deep_view()) {
            Ok(fields) => decoded matches Ok(items) && items.deep_view() == fields,
            Err(why) => decoded matches Err(said) && said@ == why,
        },
{
    let mut items: Vec<(String, String)> = Vec::new();
    let mut i: usize = 0;
    assert(items.deep_view() =~= Seq::empty());
    while i < raw.len()
        invariant
            i <= raw.len(),
            decoded_fields(raw.deep_view().take(i as int)) == Ok::<FormFields, Seq<char>>(items.deep_view()),
        decreases raw.len() - i,
    {
        let ghost before = items.deep_view();
        assert(raw.deep_view().take(i + 1).drop_last() =~= raw.deep_view().take(i as int));
        match url_decode(raw[i].1.as_str()) {
            Ok(value) => {
                items.push((raw[i].0.clone(), value));
                assert(items.deep_view() =~= before.push((raw[i as int].0@, value@)));
            },
            Err(why) => {
                proof {
                    lemma_decoding_stops(raw.deep_view(), i + 1);
                }
                return Err(why);
            },
        }
        i += 1;
    }
    assert(raw.deep_view().take(i as int) =~= raw.deep_view());
    Ok(items)
}

impl CreatePostRequest {
    /// Reads the request for a post from the decoded fields of a form and
    /// the pieces into which the field of tags was cut. Every one of title,
    /// content, tags and owner_id must be there, else the first that is
    /// missing is named. The pieces become the tags; without pieces the
    /// form is refused. The owner is read as a decimal `i32`. The post is
    /// published only where the field published is exactly `true`; without
    /// that field it is a draft. The post is created at `now`.
    pub fn from_form_parts(
        items: &Vec<(String, String)>,
        pieces: Option<Vec<String>>,
        now: Timestamp,
    ) -> (request: Result<CreatePostRequest, String>)
        ensures
            match form_request_with(items.deep_view(), pieces.deep_view(), now) {
                Ok(asked) => request matches Ok(r) && r@ == asked,
                Err(why) => request matches Err(said) && said@ == why,
            },
    {
        let title = match field_value(items, "title") {
            Some(value) => value,
            None => {
                return Err(join("Missing form parameter: ", "title"));
            },
        };
        let content = match field_value(items, "content") {
            Some(value) => value,
            None => {
                return Err(join("Missing form parameter: ", "content"));
            },
        };
        if field_value(items, "tags").is_none() {
            return Err(join("Missing form parameter: ", "tags"));
        }
        let owner_text = match field_value(items, "owner_id") {
            Some(value) => value,
            None => {
                return Err(join("Missing form parameter: ", "owner_id"));
            },
        };
        let tags = match pieces {
            Some(parts) => parts,
            None => {
                return Err("Failed to split tags".to_owned());
            },
        };
        let owner_id = match parse_i32(owner_text.as_str()) {
            Ok(id) => id,
            Err(why) => {
                return Err(join("Failed to parse owner ID: ", why.description()));
            },
        };
        let published = match field_value(items, "published") {
            Some(value) => same_text(value.as_str(), "true"),
            None => false,
        };
        Ok(CreatePostRequest { title, content, tags, owner_id, created_on: now, published })
    }

    /// Reads the request for a post from the decoded fields of a form. The
    /// tags are the parts of their field between whitespace characters,
    /// empty parts included; for the rest see `from_form_parts`.
    pub fn from_form_items(
        items: &Vec<(String, String)>,
        now: Timestamp,
    ) -> (request: Result<CreatePostRequest, String>)
        ensures
            match form_request(items.deep_view(), now) {
                Ok(asked) => request matches Ok(r) && r@ == asked,
                Err(why) => request matches Err(said) && said@ == why,
            },
    {
        let pieces = match field_value(items, "tags") {
            Some(text) => split_by_pattern("\\s", text.as_str()),
            None => None,
        };
        Self::from_form_parts(items, pieces, now)
    }

    /// Reads the request for a post from the fields of a form as they
    /// arrive, with their values still URL-encoded: the values are decoded
    /// first, and a value that cannot be decoded refuses the form with the
    /// decoder's words; for the rest see `from_form_items`.
    pub fn from_encoded_form_items(
        raw: &Vec<(String, String)>,
        now: Timestamp,
    ) -> (request: Result<CreatePostRequest, String>)
        ensures
            match encoded_form_request(raw.deep_view(), now) {
                Ok(asked) => request matches Ok(r) && r@ == asked,
                Err(why) => request matches Err(said) && said@ == why,
            },
    {
        match decode_form_items(raw) {
            Ok(items) => Self::from_form_items(&items, now),
            Err(why) => Err(why),
        }
    }
}

} // verus!
