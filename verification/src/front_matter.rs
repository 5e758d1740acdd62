//! The preamble of a document: where it lies in the text, and what its
//! fields say.

use vstd::prelude::*;
use crate::helpers::{rfc3339_parse, rfc3339_value, Timestamp};
use crate::text::{chars_of, join2, join3, string_of, trim_bounds, trimmed, trimmed_range};

verus! {

/// The line that opens and closes a preamble.
pub const HEADER_DELIMITER: &'static str = "---";

/// Whether a separator line starts at position `i` of `s`: the delimiter,
/// at the beginning of a line, followed by a line ending or by the end of
/// the text.
pub open spec fn separator_at(s: Seq<char>, i: int) -> bool {
    let end = i + HEADER_DELIMITER@.len();
    &&& 0 <= i && end <= s.len()
    &&& (i == 0 || s[i - 1] == '\n')
    &&& s.subrange(i, end) == HEADER_DELIMITER@
    &&& (end == s.len() || s[end] == '\n' || (end + 1 < s.len() && s[end] == '\r' && s[end + 1]
        == '\n'))
}

/// The position after the separator line that starts at `i`.
pub open spec fn separator_end(s: Seq<char>, i: int) -> int {
    let end = i + HEADER_DELIMITER@.len();
    if end == s.len() {
        end
    } else if s[end] == '\n' {
        end + 1
    } else {
        end + 2
    }
}

/// The start of the first separator line at or after position `from`.
pub open spec fn next_separator(s: Seq<char>, from: int) -> Option<int>
    decreases s.len() - from,
{
    if from < 0 || from >= s.len() {
        None
    } else if separator_at(s, from) {
        Some(from)
    } else {
        next_separator(s, from + 1)
    }
}

/// The text between the first two separator lines of `s`; `None` where `s`
/// has fewer than two.
pub open spec fn preamble_of(s: Seq<char>) -> Option<Seq<char>> {
    match next_separator(s, 0) {
        None => None,
        Some(a) => match next_separator(s, separator_end(s, a)) {
            None => None,
            Some(b) => Some(s.subrange(separator_end(s, a), b)),
        },
    }
}

/// What `next_separator` finds is a separator line at or after `from`, the
/// first one; where it finds nothing, there is none.
pub proof fn lemma_next_separator(s: Seq<char>, from: int)
    requires
        0 <= from,
    ensures
        match next_separator(s, from) {
            Some(a) => from <= a && separator_at(s, a) && forall|k: int|
                from <= k < a ==> !separator_at(s, k),
            None => forall|k: int| from <= k ==> !separator_at(s, k),
        },
    decreases s.len() - from,
{
    reveal_strlit("---");
    if from < s.len() && !separator_at(s, from) {
        lemma_next_separator(s, from + 1);
    }
}

fn is_separator(chars: &Vec<char>, i: usize) -> (r: bool)
    requires
        i < chars.len(),
    ensures
        r == separator_at(chars@, i as int),
{
    proof {
        reveal_strlit("---");
    }
    let n = chars.len();
    if n - i < 3 {
        return false;
    }
    if i > 0 && chars[i - 1] != '\n' {
        return false;
    }
    if chars[i] != '-' || chars[i + 1] != '-' || chars[i + 2] != '-' {
        assert(chars@.subrange(i as int, i + 3)[0] == chars@[i as int]);
        assert(chars@.subrange(i as int, i + 3)[1] == chars@[i + 1]);
        assert(chars@.subrange(i as int, i + 3)[2] == chars@[i + 2]);
        return false;
    }
    assert(chars@.subrange(i as int, i + 3) == HEADER_DELIMITER@);
    if n - i == 3 {
        return true;
    }
    if chars[i + 3] == '\n' {
        return true;
    }
    n - i > 4 && chars[i + 3] == '\r' && chars[i + 4] == '\n'
}

fn find_separator(chars: &Vec<char>, from: usize) -> (r: Option<usize>)
    ensures
        match r {
            Some(a) => next_separator(chars@, from as int) == Some(a as int),
            None => next_separator(chars@, from as int) is None,
        },
{
    let mut i: usize = from;
    while i < chars.len()
        invariant
            from <= i,
            next_separator(chars@, from as int) == next_separator(chars@, i as int),
        decreases chars.len() - i,
    {
        if is_separator(chars, i) {
            return Some(i);
        }
        i += 1;
    }
    None
}

/// Finds the preamble of a document: the text between its first two
/// separator lines. `None` where the document has fewer than two.
pub fn extract_preamble(text: &str) -> (r: Option<String>)
    ensures
        match r {
            Some(p) => preamble_of(text@) == Some(p@),
            None => preamble_of(text@) is None,
        },
{
    let chars = chars_of(text);
    let n = chars.len();
    match find_separator(&chars, 0) {
        None => None,
        Some(a) => {
            proof {
                reveal_strlit("---");
                lemma_next_separator(chars@, 0);
            }
            let start = if n - a == 3 {
                a + 3
            } else if chars[a + 3] == '\n' {
                a + 4
            } else {
                a + 5
            };
            match find_separator(&chars, start) {
                None => None,
                Some(b) => {
                    proof {
                        lemma_next_separator(chars@, start as int);
                    }
                    Some(string_of(&chars, start, b))
                },
            }
        },
    }
}

/// A TOML table, as the `toml` crate holds it.
#[verifier::external_type_specification]
#[verifier::external_body]
#[verifier::reject_recursive_types(K)]
#[verifier::reject_recursive_types(V)]
pub struct ExTomlMap<K, V>(toml::map::Map<K, V>);

/// A TOML value, as the `toml` crate holds it.
#[verifier::external_type_specification]
#[verifier::external_body]
pub struct ExTomlValue(toml::Value);

/// The error of the `toml` crate's parser.
#[verifier::external_type_specification]
#[verifier::external_body]
pub struct ExTomlError(toml::de::Error);

/// The value of one field of a preamble, as far as the builder reads it.
#[derive(Debug, PartialEq, Eq)]
pub enum TomlField {
    /// A string.
    Text(String),
    /// An array; an item that is no string stands as `None`.
    List(Vec<Option<String>>),
    /// Anything else: a number, a date, a table.
    Other,
}

/// What a `TomlField` holds, as a mathematical value.
pub enum TomlFieldView {
    Text(Seq<char>),
    List(Seq<Option<Seq<char>>>),
    Other,
}

impl View for TomlField {
    type V = TomlFieldView;

    open spec fn view(&self) -> TomlFieldView {
        match *self {
            TomlField::Text(s) => TomlFieldView::Text(s@),
            TomlField::List(l) => TomlFieldView::List(l.deep_view()),
            TomlField::Other => TomlFieldView::Other,
        }
    }
}

/// The top-level fields of a TOML document, by key; `None` where the text
/// is no TOML document.
pub uninterp spec fn toml_fields(text: Seq<char>) -> Option<Map<Seq<char>, TomlFieldView>>;

/// The fields that a table holds, by key.
pub uninterp spec fn table_fields(table: toml::Table) -> Map<Seq<char>, TomlFieldView>;

/// `toml::from_str` at the type `toml::Table`: parses a TOML document into
/// the table of its top-level keys. The contract names the table's fields
/// as a function of the text, and an error as their absence.
#[verifier::external_body]
pub(crate) fn toml_decode(text: &str) -> (r: Result<toml::Table, toml::de::Error>)
    ensures
        match r {
            Ok(t) => toml_fields(text@) == Some(table_fields(t)),
            Err(_) => toml_fields(text@) is None,
        },
{
    toml::from_str::<toml::Table>(text)
}

/// `toml::map::Map::get`: the value under a key, if the table has the key.
/// A string is handed out as `Text`, an array as `List` with each item
/// read through `toml::Value::as_str`, any other value as `Other`.
#[verifier::external_body]
pub(crate) fn table_get(table: &toml::Table, key: &str) -> (r: Option<TomlField>)
    ensures
        match r {
            Some(v) => table_fields(*table).contains_key(key@) && table_fields(*table)[key@] == v@,
            None => !table_fields(*table).contains_key(key@),
        },
{
    match table.get(key) {
        None => None,
        Some(toml::Value::String(s)) => Some(TomlField::Text(s.clone())),
        Some(toml::Value::Array(a)) => Some(
            TomlField::List(a.iter().map(|v| v.as_str().map(String::from)).collect()),
        ),
        Some(_) => Some(TomlField::Other),
    }
}

/// The fields of a preamble.
#[derive(Clone, Copy, Debug, PartialEq, Eq, Structural)]
pub enum Field {
    Date,
    Title,
    TagList,
    HeroImage,
    ShareImage,
    Author,
    Description,
}

/// Why a document could not be read.
#[derive(Clone, Copy, Debug, PartialEq, Eq, Structural)]
pub enum ParseError {
    /// The document has fewer than two separator lines.
    MalformedPreamble,
    /// The preamble is no TOML document.
    InvalidToml,
    /// A field that every document must have is absent or empty.
    MissingField(Field),
    /// A field holds a value of the wrong kind.
    WrongType(Field),
    /// The date is no RFC 3339 date.
    BadDate,
}

/// What the preamble of a document says.
#[derive(Debug)]
pub struct PageMetadata {
    pub date: Timestamp,
    pub tag_list: Option<Vec<String>>,
    pub title: String,
    pub share_image: Option<String>,
    pub hero_image: Option<String>,
    pub author: Option<String>,
    pub description: Option<String>,
}

/// A `PageMetadata` as a mathematical value.
pub struct PageMetadataView {
    pub date: Timestamp,
    pub tag_list: Option<Seq<Seq<char>>>,
    pub title: Seq<char>,
    pub share_image: Option<Seq<char>>,
    pub hero_image: Option<Seq<char>>,
    pub author: Option<Seq<char>>,
    pub description: Option<Seq<char>>,
}

impl DeepView for PageMetadata {
    type V = PageMetadataView;

    open spec fn deep_view(&self) -> PageMetadataView {
        PageMetadataView {
            date: self.date,
            tag_list: self.tag_list.deep_view(),
            title: self.title@,
            share_image: self.share_image.deep_view(),
            hero_image: self.hero_image.deep_view(),
            author: self.author.deep_view(),
            description: self.description.deep_view(),
        }
    }
}

/// The fields of a preamble as they were found, before any is checked.
#[derive(Debug)]
pub struct RawMetadata {
    pub date: Option<TomlField>,
    pub title: Option<TomlField>,
    pub tag_list: Option<TomlField>,
    pub hero_image: Option<TomlField>,
    pub share_image: Option<TomlField>,
    pub author: Option<TomlField>,
    pub description: Option<TomlField>,
}

/// A `RawMetadata` as a mathematical value.
pub struct RawMetadataView {
    pub date: Option<TomlFieldView>,
    pub title: Option<TomlFieldView>,
    pub tag_list: Option<TomlFieldView>,
    pub hero_image: Option<TomlFieldView>,
    pub share_image: Option<TomlFieldView>,
    pub author: Option<TomlFieldView>,
    pub description: Option<TomlFieldView>,
}

/// The view of a field that may be absent.
pub open spec fn field_view(f: Option<TomlField>) -> Option<TomlFieldView> {
    match f {
        Some(v) => Some(v@),
        None => None,
    }
}

impl View for RawMetadata {
    type V = RawMetadataView;

    open spec fn view(&self) -> RawMetadataView {
        RawMetadataView {
            date: field_view(self.date),
            title: field_view(self.title),
            tag_list: field_view(self.tag_list),
            hero_image: field_view(self.hero_image),
            share_image: field_view(self.share_image),
            author: field_view(self.author),
            description: field_view(self.description),
        }
    }
}

/// The tag that a piece of text stands for: the piece without the white
/// space around it, and no tag at all where nothing is left.
pub open spec fn tag_of(piece: Seq<char>) -> Seq<Seq<char>> {
    if piece.len() > 0 {
        seq![piece]
    } else {
        Seq::empty()
    }
}

/// The tags of a comma-separated text from position `at` on, where the
/// piece that `at` lies in began at `start`.
pub open spec fn tags_scan(s: Seq<char>, start: int, at: int) -> Seq<Seq<char>>
    decreases s.len() - at,
{
    if at >= s.len() {
        tag_of(trimmed_range(s, start, s.len() as int))
    } else if s[at] == ',' {
        tag_of(trimmed_range(s, start, at)) + tags_scan(s, at + 1, at + 1)
    } else {
        tags_scan(s, start, at + 1)
    }
}

/// The tags of a comma-separated text: its pieces between the commas, each
/// without the white space around it, the empty ones left out.
pub open spec fn tags_of_text(s: Seq<char>) -> Seq<Seq<char>> {
    tags_scan(s, 0, 0)
}

/// The tags of a list: its items, each without the white space around it,
/// the empty ones left out. `None` where an item is no string.
pub open spec fn tags_of_list(items: Seq<Option<Seq<char>>>) -> Option<Seq<Seq<char>>>
    decreases items.len(),
{
    if items.len() == 0 {
        Some(Seq::empty())
    } else {
        match (tags_of_list(items.drop_last()), items.last()) {
            (Some(tags), Some(item)) => Some(tags + tag_of(trimmed(item))),
            _ => None,
        }
    }
}

/// Splits a comma-separated text into its tags.
pub fn split_tags(text: &str) -> (r: Vec<String>)
    ensures
        r.deep_view() == tags_of_text(text@),
{
    let chars = chars_of(text);
    let n = chars.len();
    let mut r: Vec<String> = Vec::new();
    let mut start: usize = 0;
    let mut at: usize = 0;
    while at < n
        invariant
            start <= at <= n,
            n == chars.len(),
            chars@ == text@,
            r.deep_view() + tags_scan(text@, start as int, at as int) == tags_of_text(text@),
        decreases n - at,
    {
        if chars[at] == ',' {
            let ghost before = r.deep_view();
            let ghost rest = tags_scan(text@, at + 1, at + 1);
            let (a, b) = trim_bounds(&chars, start, at);
            if a < b {
                let piece = string_of(&chars, a, b);
                r.push(piece);
                assert(r.deep_view() == before + seq![piece@]);
                assert((before + seq![piece@]) + rest == before + (seq![piece@] + rest));
            } else {
                assert(Seq::<Seq<char>>::empty() + rest == rest);
            }
            start = at + 1;
        }
        at += 1;
    }
    let ghost before = r.deep_view();
    let (a, b) = trim_bounds(&chars, start, n);
    if a < b {
        let piece = string_of(&chars, a, b);
        r.push(piece);
        assert(r.deep_view() == before + seq![piece@]);
    } else {
        assert(before + Seq::<Seq<char>>::empty() == before);
    }
    r
}

/// A list with an item that is no string has no tags.
proof fn lemma_list_with_other(items: Seq<Option<Seq<char>>>, i: int)
    requires
        0 <= i < items.len(),
        items[i] is None,
    ensures
        tags_of_list(items) is None,
    decreases items.len(),
{
    if i < items.len() - 1 {
        lemma_list_with_other(items.drop_last(), i);
    }
}

/// Reads the tags of a list. `None` where an item is no string.
pub fn list_tags(items: &Vec<Option<String>>) -> (r: Option<Vec<String>>)
    ensures
        r.deep_view() == tags_of_list(items.deep_view()),
{
    let mut r: Vec<String> = Vec::new();
    let mut i: usize = 0;
    while i < items.len()
        invariant
            i <= items.len(),
            Some(r.deep_view()) == tags_of_list(items.deep_view().take(i as int)),
        decreases items.len() - i,
    {
        let ghost before = r.deep_view();
        let ghost seen = items.deep_view().take(i as int);
        assert(items.deep_view().take(i + 1).drop_last() == seen);
        match &items[i] {
            None => {
                proof {
                    lemma_list_with_other(items.deep_view(), i as int);
                }
                return None;
            },
            Some(item) => {
                let chars = chars_of(item.as_str());
                let (a, b) = trim_bounds(&chars, 0, chars.len());
                if a < b {
                    let piece = string_of(&chars, a, b);
                    r.push(piece);
                    assert(r.deep_view() == before + seq![piece@]);
                } else {
                    assert(before + Seq::<Seq<char>>::empty() == before);
                }
            },
        }
        i += 1;
    }
    assert(items.deep_view().take(items.len() as int) == items.deep_view());
    Some(r)
}

/// The text of a field that every document must have.
pub open spec fn required_text(f: Option<TomlFieldView>, which: Field) -> Result<
    Seq<char>,
    ParseError,
> {
    match f {
        None => Err(ParseError::MissingField(which)),
        Some(TomlFieldView::Text(s)) => Ok(s),
        Some(_) => Err(ParseError::WrongType(which)),
    }
}

/// The text of a field that a document may leave out.
pub open spec fn optional_text(f: Option<TomlFieldView>, which: Field) -> Result<
    Option<Seq<char>>,
    ParseError,
> {
    match f {
        None => Ok(None),
        Some(TomlFieldView::Text(s)) => Ok(Some(s)),
        Some(_) => Err(ParseError::WrongType(which)),
    }
}

/// The date of a document: its `date` field, read as an RFC 3339 date.
pub open spec fn date_of(f: Option<TomlFieldView>) -> Result<Timestamp, ParseError> {
    match required_text(f, Field::Date) {
        Err(e) => Err(e),
        Ok(s) => match rfc3339_value(s) {
            Some(t) => Ok(t),
            None => Err(ParseError::BadDate),
        },
    }
}

/// The title of a document: its `title` field, which may not be empty.
pub open spec fn title_of(f: Option<TomlFieldView>) -> Result<Seq<char>, ParseError> {
    match required_text(f, Field::Title) {
        Err(e) => Err(e),
        Ok(s) => if s.len() == 0 {
            Err(ParseError::MissingField(Field::Title))
        } else {
            Ok(s)
        },
    }
}

/// The tags of a document: its `tag_list` field, a comma-separated text or
/// a list of strings.
pub open spec fn tag_list_of(f: Option<TomlFieldView>) -> Result<
    Option<Seq<Seq<char>>>,
    ParseError,
> {
    match f {
        None => Ok(None),
        Some(TomlFieldView::Text(s)) => Ok(Some(tags_of_text(s))),
        Some(TomlFieldView::List(l)) => match tags_of_list(l) {
            Some(tags) => Ok(Some(tags)),
            None => Err(ParseError::WrongType(Field::TagList)),
        },
        Some(TomlFieldView::Other) => Err(ParseError::WrongType(Field::TagList)),
    }
}

/// What the fields of a preamble say, or the first thing that is wrong
/// with them: the date is looked at first, then the title, the tags, the
/// two images, the author and the description.
pub open spec fn metadata_of(raw: RawMetadataView) -> Result<PageMetadataView, ParseError> {
    match date_of(raw.date) {
        Err(e) => Err(e),
        Ok(date) => match title_of(raw.title) {
            Err(e) => Err(e),
            Ok(title) => match tag_list_of(raw.tag_list) {
                Err(e) => Err(e),
                Ok(tag_list) => match optional_text(raw.hero_image, Field::HeroImage) {
                    Err(e) => Err(e),
                    Ok(hero_image) => match optional_text(raw.share_image, Field::ShareImage) {
                        Err(e) => Err(e),
                        Ok(share_image) => match optional_text(raw.author, Field::Author) {
                            Err(e) => Err(e),
                            Ok(author) => match optional_text(
                                raw.description,
                                Field::Description,
                            ) {
                                Err(e) => Err(e),
                                Ok(description) => Ok(
                                    PageMetadataView {
                                        date,
                                        tag_list,
                                        title,
                                        share_image,
                                        hero_image,
                                        author,
                                        description,
                                    },
                                ),
                            },
                        },
                    },
                },
            },
        },
    }
}

/// The view of what decoding a preamble gives.
pub open spec fn metadata_result(r: Result<PageMetadata, ParseError>) -> Result<
    PageMetadataView,
    ParseError,
> {
    match r {
        Ok(m) => Ok(m.deep_view()),
        Err(e) => Err(e),
    }
}

fn take_required(f: Option<TomlField>, which: Field) -> (r: Result<String, ParseError>)
    ensures
        match r {
            Ok(s) => required_text(field_view(f), which) == Ok::<Seq<char>, ParseError>(s@),
            Err(e) => required_text(field_view(f), which) == Err::<Seq<char>, ParseError>(e),
        },
{
    match f {
        None => Err(ParseError::MissingField(which)),
        Some(TomlField::Text(s)) => Ok(s),
        Some(_) => Err(ParseError::WrongType(which)),
    }
}

fn take_optional(f: Option<TomlField>, which: Field) -> (r: Result<Option<String>, ParseError>)
    ensures
        match r {
            Ok(s) => optional_text(field_view(f), which) == Ok::<Option<Seq<char>>, ParseError>(
                s.deep_view(),
            ),
            Err(e) => optional_text(field_view(f), which) == Err::<Option<Seq<char>>, ParseError>(
                e,
            ),
        },
{
    match f {
        None => Ok(None),
        Some(TomlField::Text(s)) => Ok(Some(s)),
        Some(_) => Err(ParseError::WrongType(which)),
    }
}

fn take_date(f: Option<TomlField>) -> (r: Result<Timestamp, ParseError>)
    ensures
        r == date_of(field_view(f)),
{
    match take_required(f, Field::Date) {
        Err(e) => Err(e),
        Ok(s) => match rfc3339_parse(s.as_str()) {
            Some(t) => Ok(t),
            None => Err(ParseError::BadDate),
        },
    }
}

fn take_title(f: Option<TomlField>) -> (r: Result<String, ParseError>)
    ensures
        match r {
            Ok(s) => title_of(field_view(f)) == Ok::<Seq<char>, ParseError>(s@),
            Err(e) => title_of(field_view(f)) == Err::<Seq<char>, ParseError>(e),
        },
{
    match take_required(f, Field::Title) {
        Err(e) => Err(e),
        Ok(s) => if s.as_str().is_empty() {
            Err(ParseError::MissingField(Field::Title))
        } else {
            Ok(s)
        },
    }
}

fn take_tags(f: Option<TomlField>) -> (r: Result<Option<Vec<String>>, ParseError>)
    ensures
        match r {
            Ok(t) => tag_list_of(field_view(f)) == Ok::<Option<Seq<Seq<char>>>, ParseError>(
                t.deep_view(),
            ),
            Err(e) => tag_list_of(field_view(f)) == Err::<Option<Seq<Seq<char>>>, ParseError>(e),
        },
{
    match f {
        None => Ok(None),
        Some(TomlField::Text(s)) => Ok(Some(split_tags(s.as_str()))),
        Some(TomlField::List(l)) => match list_tags(&l) {
            Some(tags) => Ok(Some(tags)),
            None => Err(ParseError::WrongType(Field::TagList)),
        },
        Some(TomlField::Other) => Err(ParseError::WrongType(Field::TagList)),
    }
}

/// Checks the fields of a preamble and reads them into a `PageMetadata`.
///
/// `date` and `title` must be there, `date` an RFC 3339 date in a string
/// and `title` a string that is not empty. `tag_list` is a comma-separated
/// string or a list of strings. `hero_image`, `share_image`, `author` and
/// `description` are strings. The first field that is wrong decides the
/// error.
pub fn decode_metadata(raw: RawMetadata) -> (r: Result<PageMetadata, ParseError>)
    ensures
        metadata_result(r) == metadata_of(raw@),
{
    let date = match take_date(raw.date) {
        Ok(v) => v,
        Err(e) => { return Err(e); },
    };
    let title = match take_title(raw.title) {
        Ok(v) => v,
        Err(e) => { return Err(e); },
    };
    let tag_list = match take_tags(raw.tag_list) {
        Ok(v) => v,
        Err(e) => { return Err(e); },
    };
    let hero_image = match take_optional(raw.hero_image, Field::HeroImage) {
        Ok(v) => v,
        Err(e) => { return Err(e); },
    };
    let share_image = match take_optional(raw.share_image, Field::ShareImage) {
        Ok(v) => v,
        Err(e) => { return Err(e); },
    };
    let author = match take_optional(raw.author, Field::Author) {
        Ok(v) => v,
        Err(e) => { return Err(e); },
    };
    let description = match take_optional(raw.description, Field::Description) {
        Ok(v) => v,
        Err(e) => { return Err(e); },
    };
    Ok(PageMetadata { date, tag_list, title, share_image, hero_image, author, description })
}

/// The field under `key`, if the fields have one.
pub open spec fn field_of(fields: Map<Seq<char>, TomlFieldView>, key: Seq<char>) -> Option<
    TomlFieldView,
> {
    if fields.contains_key(key) {
        Some(fields[key])
    } else {
        None
    }
}

/// The fields of a preamble that the builder reads, out of all that the
/// preamble holds.
pub open spec fn raw_of(fields: Map<Seq<char>, TomlFieldView>) -> RawMetadataView {
    RawMetadataView {
        date: field_of(fields, "date"@),
        title: field_of(fields, "title"@),
        tag_list: field_of(fields, "tag_list"@),
        hero_image: field_of(fields, "hero_image"@),
        share_image: field_of(fields, "share_image"@),
        author: field_of(fields, "author"@),
        description: field_of(fields, "description"@),
    }
}

/// What a preamble says, given the fields that it holds as TOML, if it is
/// TOML at all.
pub open spec fn metadata_of_fields(fields: Option<Map<Seq<char>, TomlFieldView>>) -> Result<
    PageMetadataView,
    ParseError,
> {
    match fields {
        None => Err(ParseError::InvalidToml),
        Some(f) => metadata_of(raw_of(f)),
    }
}

fn collect_fields(table: &toml::Table) -> (r: RawMetadata)
    ensures
        r@ == raw_of(table_fields(*table)),
{
    RawMetadata {
        date: table_get(table, "date"),
        title: table_get(table, "title"),
        tag_list: table_get(table, "tag_list"),
        hero_image: table_get(table, "hero_image"),
        share_image: table_get(table, "share_image"),
        author: table_get(table, "author"),
        description: table_get(table, "description"),
    }
}

/// Reads a preamble: decodes it as TOML, then checks its fields as
/// `decode_metadata` does.
pub fn parse_metadata(preamble: &str) -> (r: Result<PageMetadata, ParseError>)
    ensures
        metadata_result(r) == metadata_of_fields(toml_fields(preamble@)),
{
    match toml_decode(preamble) {
        Err(_) => Err(ParseError::InvalidToml),
        Ok(table) => decode_metadata(collect_fields(&table)),
    }
}

/// What a new document says before its author has written anything: it
/// is dated `now`, titled "Page Title", and by the author of the site.
pub open spec fn blank_metadata(now: Timestamp, author: Option<Seq<char>>) -> PageMetadataView {
    PageMetadataView {
        date: now,
        tag_list: None,
        title: "Page Title"@,
        share_image: None,
        hero_image: None,
        author,
        description: None,
    }
}

/// Makes the preamble of a new document.
pub fn new_metadata(now: Timestamp, author: Option<String>) -> (r: PageMetadata)
    ensures
        r.deep_view() == blank_metadata(now, author.deep_view()),
{
    PageMetadata {
        date: now,
        tag_list: None,
        title: "Page Title".to_owned(),
        share_image: None,
        hero_image: None,
        author,
        description: None,
    }
}

/// A preamble between its two separator lines.
pub open spec fn framed(preamble: Seq<char>) -> Seq<char> {
    HEADER_DELIMITER@ + "\n"@ + preamble + HEADER_DELIMITER@ + "\n"@
}

/// Puts a preamble between two separator lines, as it stands at the start
/// of a document.
pub fn frame_preamble(preamble: &str) -> (r: String)
    ensures
        r@ == framed(preamble@),
{
    let opening = join2(HEADER_DELIMITER, "\n");
    let closing = join2(HEADER_DELIMITER, "\n");
    let r = join3(opening.as_str(), preamble, closing.as_str());
    assert(r@ == framed(preamble@));
    r
}

/// Whether `s` holds `preamble` between two separator lines, from its
/// start on.
spec fn starts_framed(s: Seq<char>, preamble: Seq<char>) -> bool {
    let n = preamble.len() as int;
    &&& s.len() >= n + 8
    &&& s[0] == '-' && s[1] == '-' && s[2] == '-' && s[3] == '\n'
    &&& forall|j: int| 0 <= j < n ==> s[4 + j] == #[trigger] preamble[j]
    &&& s[n + 4] == '-' && s[n + 5] == '-' && s[n + 6] == '-' && s[n + 7] == '\n'
}

proof fn lemma_framed_shape(preamble: Seq<char>, rest: Seq<char>)
    ensures
        starts_framed(framed(preamble) + rest, preamble),
{
    reveal_strlit("---");
    reveal_strlit("\n");
    let n = preamble.len() as int;
    let a = HEADER_DELIMITER@ + "\n"@;
    assert(a.len() == 4 && a[0] == '-' && a[1] == '-' && a[2] == '-' && a[3] == '\n');
    let b = a + preamble;
    assert(b.len() == n + 4);
    assert forall|j: int| 0 <= j < n implies b[4 + j] == #[trigger] preamble[j] by {}
    let c = b + HEADER_DELIMITER@;
    assert(c.len() == n + 7 && c[n + 4] == '-' && c[n + 5] == '-' && c[n + 6] == '-');
    let d = c + "\n"@;
    assert(d.len() == n + 8 && d[n + 7] == '\n');
    assert(d == framed(preamble));
    let s = d + rest;
    assert forall|j: int| 0 <= j < n + 8 implies s[j] == d[j] by {}
    assert(s[0] == a[0] && s[1] == a[1] && s[2] == a[2] && s[3] == a[3]);
    assert forall|j: int| 0 <= j < n implies s[4 + j] == #[trigger] preamble[j] by {
        assert(s[4 + j] == d[4 + j]);
        assert(d[4 + j] == b[4 + j]);
    }
}

proof fn lemma_no_separator_inside(s: Seq<char>, preamble: Seq<char>, k: int)
    requires
        starts_framed(s, preamble),
        preamble.len() == 0 || preamble.last() == '\n',
        forall|i: int| !separator_at(preamble, i),
        4 <= k < preamble.len() + 4,
    ensures
        !separator_at(s, k),
{
    reveal_strlit("---");
    let n = preamble.len() as int;
    let j = k - 4;
    if separator_at(s, k) {
        let line = s.subrange(k, k + 3);
        assert(line == HEADER_DELIMITER@);
        assert(line[0] == s[k] && line[1] == s[k + 1] && line[2] == s[k + 2]);
        assert(s[k] == '-' && s[k + 1] == '-' && s[k + 2] == '-');
        assert(preamble[n - 1] == s[n + 3]);
        if j + 3 < n {
            assert(preamble[j] == s[k] && preamble[j + 1] == s[k + 1] && preamble[j + 2] == s[k
                + 2]);
            assert(preamble.subrange(j, j + 3) =~= HEADER_DELIMITER@);
            if j > 0 {
                assert(preamble[j - 1] == s[k - 1]);
            }
            assert(preamble[j + 3] == s[k + 3]);
            if j + 4 < n {
                assert(preamble[j + 4] == s[k + 4]);
            }
            assert(separator_at(preamble, j));
        }
    }
}

proof fn lemma_found_between(s: Seq<char>, first: int, second: int)
    requires
        separator_at(s, 0),
        separator_end(s, 0) == first,
        0 < first <= second,
        separator_at(s, second),
        forall|k: int| first <= k < second ==> !separator_at(s, k),
    ensures
        preamble_of(s) == Some(s.subrange(first, second)),
{
    lemma_next_separator(s, 0);
    lemma_next_separator(s, first);
}

/// A preamble that is put between separator lines is found again there,
/// whatever follows it, as long as it is made of whole lines and none of
/// them is a separator line.
pub proof fn lemma_framed_is_found(preamble: Seq<char>, rest: Seq<char>)
    requires
        preamble.len() == 0 || preamble.last() == '\n',
        forall|k: int| !separator_at(preamble, k),
    ensures
        preamble_of(framed(preamble) + rest) == Some(preamble),
{
    let s = framed(preamble) + rest;
    let n = preamble.len() as int;
    lemma_framed_shape(preamble, rest);
    assert(separator_at(s, 0) && separator_end(s, 0) == 4) by {
        reveal_strlit("---");
        assert(starts_framed(s, preamble));
        assert(s.subrange(0, 3) =~= HEADER_DELIMITER@);
    }
    assert(separator_at(s, n + 4)) by {
        reveal_strlit("---");
        assert(starts_framed(s, preamble));
        assert(s.subrange(n + 4, n + 7) =~= HEADER_DELIMITER@);
    }
    assert forall|k: int| 4 <= k < n + 4 implies !separator_at(s, k) by {
        lemma_no_separator_inside(s, preamble, k);
    }
    assert(s.subrange(4, n + 4) == preamble) by {
        assert(starts_framed(s, preamble));
        assert(s.subrange(4, n + 4) =~= preamble);
    }
    lemma_found_between(s, 4, n + 4);
}

/// The file name of a new document: its title, or "untitled", with the
/// extension `.md`.
pub open spec fn document_name(title: Option<Seq<char>>) -> Seq<char> {
    match title {
        Some(t) => t + ".md"@,
        None => "untitled.md"@,
    }
}

/// Names the file of a new document.
pub fn new_document_name(title: Option<String>) -> (r: String)
    ensures
        r@ == document_name(title.deep_view()),
{
    match title {
        Some(t) => join2(t.as_str(), ".md"),
        None => "untitled.md".to_owned(),
    }
}

/// The key of a field in the preamble.
pub open spec fn field_key(f: Field) -> Seq<char> {
    match f {
        Field::Date => "date"@,
        Field::Title => "title"@,
        Field::TagList => "tag_list"@,
        Field::HeroImage => "hero_image"@,
        Field::ShareImage => "share_image"@,
        Field::Author => "author"@,
        Field::Description => "description"@,
    }
}

/// What a `ParseError` says to the user.
pub open spec fn parse_message(e: ParseError) -> Seq<char> {
    match e {
        ParseError::MalformedPreamble => "the preamble needs two separator lines"@,
        ParseError::InvalidToml => "the preamble is not valid TOML"@,
        ParseError::MissingField(f) => "missing field "@ + field_key(f),
        ParseError::WrongType(f) => "wrong kind of value for field "@ + field_key(f),
        ParseError::BadDate => "the date is not an RFC 3339 date"@,
    }
}

impl Field {
    /// The key of the field in the preamble.
    pub fn key(&self) -> (r: &'static str)
        ensures
            r@ == field_key(*self),
    {
        match self {
            Field::Date => "date",
            Field::Title => "title",
            Field::TagList => "tag_list",
            Field::HeroImage => "hero_image",
            Field::ShareImage => "share_image",
            Field::Author => "author",
            Field::Description => "description",
        }
    }
}

impl ParseError {
    /// What the error says to the user.
    pub fn message(&self) -> (r: String)
        ensures
            r@ == parse_message(*self),
    {
        match self {
            ParseError::MalformedPreamble => "the preamble needs two separator lines".to_owned(),
            ParseError::InvalidToml => "the preamble is not valid TOML".to_owned(),
            ParseError::MissingField(f) => join2("missing field ", f.key()),
            ParseError::WrongType(f) => join2("wrong kind of value for field ", f.key()),
            ParseError::BadDate => "the date is not an RFC 3339 date".to_owned(),
        }
    }
}

} // verus!
