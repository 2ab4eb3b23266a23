//! The metadata of an ingest: what a client sends and what is stored of it.

use crate::keys;
use crate::outside;
use crate::tags;
use crate::text;
use vstd::prelude::*;

verus! {

/// The largest number of tags of one work.
pub const MAX_TAGS: usize = 40;

/// An element of a JSON list, as far as the metadata looks at it.
#[derive(Debug, Clone, PartialEq, Eq)]
pub enum MetaItem {
    Null,
    Text(String),
    Other,
}

/// A JSON value, as far as the metadata looks at it.
#[derive(Debug, Clone, PartialEq, Eq)]
pub enum MetaValue {
    Null,
    Bool(bool),
    /// A number: how it is written, and its value where that is a 64-bit integer.
    Number { text: String, integer: Option<i64> },
    Text(String),
    List(Vec<MetaItem>),
    Object,
}

/// The metadata as a client sends it.
#[derive(Debug, Clone, PartialEq, Eq)]
pub struct IngestMetaRaw {
    pub source: Option<MetaValue>,
    pub source_id: Option<MetaValue>,
    pub source_url: Option<MetaValue>,
    pub title: Option<MetaValue>,
    pub author_name: Option<MetaValue>,
    pub author_url: Option<MetaValue>,
    pub tags: Option<MetaValue>,
    pub is_r18: Option<MetaValue>,
    pub origin: Option<MetaValue>,
}

/// The metadata after validation.
#[derive(Debug, Clone, PartialEq, Eq)]
pub struct ValidatedMeta {
    pub source: String,
    pub source_id: String,
    pub source_url: String,
    pub title: String,
    pub author_name: String,
    pub author_url: String,
    pub tags: Vec<String>,
    pub is_r18: bool,
    pub origin: String,
}

/// Why metadata is refused.
#[derive(Debug, Clone, PartialEq, Eq)]
pub enum MetaError {
    InvalidJson,
    MissingSource,
    MissingSourceId,
    InvalidSource,
    InvalidSourceId,
    InvalidField(&'static str),
}

// ---------------------------------------------------------------------------
// Mathematical values
// ---------------------------------------------------------------------------

/// The mathematical value of a [`MetaItem`].
pub enum ItemView {
    Null,
    Text(Seq<char>),
    Other,
}

/// The mathematical value of a [`MetaValue`].
pub enum ValueView {
    Null,
    Bool(bool),
    Number { text: Seq<char>, integer: Option<i64> },
    Text(Seq<char>),
    List(Seq<ItemView>),
    Object,
}

/// The mathematical value of an [`IngestMetaRaw`].
pub struct RawMetaView {
    pub source: Option<ValueView>,
    pub source_id: Option<ValueView>,
    pub source_url: Option<ValueView>,
    pub title: Option<ValueView>,
    pub author_name: Option<ValueView>,
    pub author_url: Option<ValueView>,
    pub tags: Option<ValueView>,
    pub is_r18: Option<ValueView>,
    pub origin: Option<ValueView>,
}

/// The mathematical value of a [`ValidatedMeta`].
pub struct MetaView {
    pub source: Seq<char>,
    pub source_id: Seq<char>,
    pub source_url: Seq<char>,
    pub title: Seq<char>,
    pub author_name: Seq<char>,
    pub author_url: Seq<char>,
    pub tags: Seq<Seq<char>>,
    pub is_r18: bool,
    pub origin: Seq<char>,
}

/// The mathematical value of a [`MetaError`].
pub enum MetaFault {
    InvalidJson,
    MissingSource,
    MissingSourceId,
    InvalidSource,
    InvalidSourceId,
    InvalidField(Seq<char>),
}

impl View for MetaItem {
    type V = ItemView;

    open spec fn view(&self) -> ItemView {
        match self {
            MetaItem::Null => ItemView::Null,
            MetaItem::Text(s) => ItemView::Text(s@),
            MetaItem::Other => ItemView::Other,
        }
    }
}

/// The values of a list of elements.
pub open spec fn item_views(items: Seq<MetaItem>) -> Seq<ItemView> {
    items.map_values(|i: MetaItem| i@)
}

impl View for MetaValue {
    type V = ValueView;

    open spec fn view(&self) -> ValueView {
        match self {
            MetaValue::Null => ValueView::Null,
            MetaValue::Bool(b) => ValueView::Bool(*b),
            MetaValue::Number { text, integer } => ValueView::Number {
                text: text@,
                integer: *integer,
            },
            MetaValue::Text(s) => ValueView::Text(s@),
            MetaValue::List(items) => ValueView::List(item_views(items@)),
            MetaValue::Object => ValueView::Object,
        }
    }
}

/// The value of an optional JSON value.
pub open spec fn value_view(v: Option<MetaValue>) -> Option<ValueView> {
    match v {
        Some(v) => Some(v@),
        None => None,
    }
}

impl View for IngestMetaRaw {
    type V = RawMetaView;

    open spec fn view(&self) -> RawMetaView {
        RawMetaView {
            source: value_view(self.source),
            source_id: value_view(self.source_id),
            source_url: value_view(self.source_url),
            title: value_view(self.title),
            author_name: value_view(self.author_name),
            author_url: value_view(self.author_url),
            tags: value_view(self.tags),
            is_r18: value_view(self.is_r18),
            origin: value_view(self.origin),
        }
    }
}

impl View for ValidatedMeta {
    type V = MetaView;

    open spec fn view(&self) -> MetaView {
        MetaView {
            source: self.source@,
            source_id: self.source_id@,
            source_url: self.source_url@,
            title: self.title@,
            author_name: self.author_name@,
            author_url: self.author_url@,
            tags: text::texts(self.tags@),
            is_r18: self.is_r18,
            origin: self.origin@,
        }
    }
}

impl View for MetaError {
    type V = MetaFault;

    open spec fn view(&self) -> MetaFault {
        match self {
            MetaError::InvalidJson => MetaFault::InvalidJson,
            MetaError::MissingSource => MetaFault::MissingSource,
            MetaError::MissingSourceId => MetaFault::MissingSourceId,
            MetaError::InvalidSource => MetaFault::InvalidSource,
            MetaError::InvalidSourceId => MetaFault::InvalidSourceId,
            MetaError::InvalidField(f) => MetaFault::InvalidField(f@),
        }
    }
}

// ---------------------------------------------------------------------------
// Fields
// ---------------------------------------------------------------------------

/// The text of an optional field: a text, a number as it is written or a truth
/// value; a missing field or null is none, anything else is refused.
pub open spec fn text_field(v: Option<ValueView>, field: Seq<char>) -> Result<
    Option<Seq<char>>,
    MetaFault,
> {
    match v {
        None => Ok(None),
        Some(ValueView::Null) => Ok(None),
        Some(ValueView::Text(s)) => Ok(Some(s)),
        Some(ValueView::Number { text, integer }) => Ok(Some(text)),
        Some(ValueView::Bool(b)) => Ok(
            Some(
                if b {
                    "true"@
                } else {
                    "false"@
                },
            ),
        ),
        Some(_) => Err(MetaFault::InvalidField(field)),
    }
}

/// The text of an optional field, empty where there is none.
pub open spec fn text_or_empty(v: Option<ValueView>, field: Seq<char>) -> Result<
    Seq<char>,
    MetaFault,
> {
    match text_field(v, field) {
        Ok(Some(s)) => Ok(s),
        Ok(None) => Ok(Seq::empty()),
        Err(e) => Err(e),
    }
}

/// The truth value of an optional field: a truth value, or an integer that
/// counts as true unless it is zero; false where there is none.
pub open spec fn flag_field(v: Option<ValueView>, field: Seq<char>) -> Result<bool, MetaFault> {
    match v {
        None => Ok(false),
        Some(ValueView::Null) => Ok(false),
        Some(ValueView::Bool(b)) => Ok(b),
        Some(ValueView::Number { text, integer: Some(n) }) => Ok(n != 0),
        Some(_) => Err(MetaFault::InvalidField(field)),
    }
}

/// The normalized tags of a list: each once, in the order of their first
/// occurrence, without the empty ones.
pub open spec fn distinct_tags(items: Seq<ItemView>) -> Seq<Seq<char>>
    decreases items.len(),
{
    if items.len() == 0 {
        Seq::empty()
    } else {
        let before = distinct_tags(items.drop_last());
        match items.last() {
            ItemView::Text(s) => {
                let t = tags::normalized(s);
                if t.len() > 0 && !before.contains(t) {
                    before.push(t)
                } else {
                    before
                }
            },
            _ => before,
        }
    }
}

/// The first forty tags.
pub open spec fn first_tags(list: Seq<Seq<char>>) -> Seq<Seq<char>> {
    if list.len() <= MAX_TAGS {
        list
    } else {
        list.take(MAX_TAGS as int)
    }
}

/// The tags of the field `tags`: a list of texts and nulls, or nothing.
pub open spec fn tags_field(v: Option<ValueView>) -> Result<Seq<Seq<char>>, MetaFault> {
    match v {
        None => Ok(Seq::empty()),
        Some(ValueView::Null) => Ok(Seq::empty()),
        Some(ValueView::List(items)) => {
            if exists|i: int| 0 <= i < items.len() && #[trigger] items[i] == ItemView::Other {
                Err(MetaFault::InvalidField("tags"@))
            } else {
                Ok(first_tags(distinct_tags(items)))
            }
        },
        Some(_) => Err(MetaFault::InvalidField("tags"@)),
    }
}

fn opt_string(v: Option<MetaValue>, field: &'static str) -> (r: Result<Option<String>, MetaError>)
    ensures
        match r {
            Ok(s) => text_field(value_view(v), field@) == Ok::<Option<Seq<char>>, MetaFault>(
                outside::opt_text(s),
            ),
            Err(e) => text_field(value_view(v), field@) == Err::<Option<Seq<char>>, MetaFault>(e@),
        },
{
    match v {
        None => Ok(None),
        Some(MetaValue::Null) => Ok(None),
        Some(MetaValue::Text(s)) => Ok(Some(s)),
        Some(MetaValue::Number { text, integer: _ }) => Ok(Some(text)),
        Some(MetaValue::Bool(b)) => if b {
            Ok(Some("true".to_owned()))
        } else {
            Ok(Some("false".to_owned()))
        },
        Some(MetaValue::List(_)) => Err(MetaError::InvalidField(field)),
        Some(MetaValue::Object) => Err(MetaError::InvalidField(field)),
    }
}

fn string_or_empty(v: Option<MetaValue>, field: &'static str) -> (r: Result<String, MetaError>)
    ensures
        match r {
            Ok(s) => text_or_empty(value_view(v), field@) == Ok::<Seq<char>, MetaFault>(s@),
            Err(e) => text_or_empty(value_view(v), field@) == Err::<Seq<char>, MetaFault>(e@),
        },
{
    match opt_string(v, field) {
        Ok(Some(s)) => Ok(s),
        Ok(None) => Ok(String::new()),
        Err(e) => Err(e),
    }
}

fn opt_bool(v: Option<MetaValue>, field: &'static str) -> (r: Result<bool, MetaError>)
    ensures
        match r {
            Ok(b) => flag_field(value_view(v), field@) == Ok::<bool, MetaFault>(b),
            Err(e) => flag_field(value_view(v), field@) == Err::<bool, MetaFault>(e@),
        },
{
    match v {
        None => Ok(false),
        Some(MetaValue::Null) => Ok(false),
        Some(MetaValue::Bool(b)) => Ok(b),
        Some(MetaValue::Number { text: _, integer }) => match integer {
            Some(n) => Ok(n != 0),
            None => Err(MetaError::InvalidField(field)),
        },
        Some(MetaValue::Text(_)) => Err(MetaError::InvalidField(field)),
        Some(MetaValue::List(_)) => Err(MetaError::InvalidField(field)),
        Some(MetaValue::Object) => Err(MetaError::InvalidField(field)),
    }
}

fn tags_of_items(items: &Vec<MetaItem>) -> (r: Result<Vec<String>, MetaError>)
    ensures
        match r {
            Ok(list) => tags_field(Some(ValueView::List(item_views(items@)))) == Ok::<
                Seq<Seq<char>>,
                MetaFault,
            >(text::texts(list@)),
            Err(e) => tags_field(Some(ValueView::List(item_views(items@)))) == Err::<
                Seq<Seq<char>>,
                MetaFault,
            >(e@),
        },
{
    let ghost all = item_views(items@);
    let mut out: Vec<String> = Vec::new();
    let mut i: usize = 0;
    assert(text::texts(out@) =~= distinct_tags(all.take(0)));
    while i < items.len()
        invariant
            i <= items@.len(),
            all == item_views(items@),
            forall|j: int| 0 <= j < i ==> #[trigger] all[j] != ItemView::Other,
            text::texts(out@) == distinct_tags(all.take(i as int)),
        decreases items@.len() - i,
    {
        proof {
            assert(all.take(i + 1).drop_last() =~= all.take(i as int));
            assert(all.take(i + 1).last() == items@[i as int]@);
            assert(all[i as int] == items@[i as int]@);
        }
        match &items[i] {
            MetaItem::Text(s) => {
                let t = tags::normalize_tag(s.as_str());
                if !t.as_str().is_empty() && !text::list_has(out.as_slice(), t.as_str()) {
                    let ghost before = text::texts(out@);
                    out.push(t);
                    assert(text::texts(out@) =~= before.push(t@));
                }
            },
            MetaItem::Null => {},
            MetaItem::Other => {
                return Err(MetaError::InvalidField("tags"));
            },
        }
        i += 1;
    }
    assert(all.take(items@.len() as int) =~= all);
    let ghost full = text::texts(out@);
    if out.len() > MAX_TAGS {
        out.truncate(MAX_TAGS);
        assert(text::texts(out@) =~= full.take(MAX_TAGS as int));
    }
    Ok(out)
}

fn opt_tags(v: Option<MetaValue>) -> (r: Result<Vec<String>, MetaError>)
    ensures
        match r {
            Ok(list) => tags_field(value_view(v)) == Ok::<Seq<Seq<char>>, MetaFault>(
                text::texts(list@),
            ),
            Err(e) => tags_field(value_view(v)) == Err::<Seq<Seq<char>>, MetaFault>(e@),
        },
{
    match v {
        None => Ok(no_tags()),
        Some(MetaValue::Null) => Ok(no_tags()),
        Some(MetaValue::List(items)) => tags_of_items(&items),
        Some(MetaValue::Bool(_)) => Err(MetaError::InvalidField("tags")),
        Some(MetaValue::Number { text: _, integer: _ }) => Err(MetaError::InvalidField("tags")),
        Some(MetaValue::Text(_)) => Err(MetaError::InvalidField("tags")),
        Some(MetaValue::Object) => Err(MetaError::InvalidField("tags")),
    }
}

fn no_tags() -> (r: Vec<String>)
    ensures
        text::texts(r@) == Seq::<Seq<char>>::empty(),
{
    let r: Vec<String> = Vec::new();
    assert(text::texts(r@) =~= Seq::<Seq<char>>::empty());
    r
}

// ---------------------------------------------------------------------------
// Validation
// ---------------------------------------------------------------------------

/// The validated metadata, where `source` is the source in lower case.
pub open spec fn validated_with(source: Seq<char>, raw: RawMetaView) -> Result<MetaView, MetaFault> {
    if source.len() == 0 {
        Err(MetaFault::MissingSource)
    } else if !keys::safe_source(source) {
        Err(MetaFault::InvalidSource)
    } else {
        match text_or_empty(raw.source_id, "source_id"@) {
            Err(e) => Err(e),
            Ok(id) => {
                let source_id = text::trimmed(id);
                if source_id.len() == 0 {
                    Err(MetaFault::MissingSourceId)
                } else if !keys::safe_source_id(source_id) {
                    Err(MetaFault::InvalidSourceId)
                } else {
                    validated_rest(source, source_id, raw)
                }
            },
        }
    }
}

/// The validated metadata, once source and identifier are known to be safe.
pub open spec fn validated_rest(
    source: Seq<char>,
    source_id: Seq<char>,
    raw: RawMetaView,
) -> Result<MetaView, MetaFault> {
    let source_url = text_or_empty(raw.source_url, "source_url"@);
    let title = text_or_empty(raw.title, "title"@);
    let author_name = text_or_empty(raw.author_name, "author_name"@);
    let author_url = text_or_empty(raw.author_url, "author_url"@);
    let origin = text_or_empty(raw.origin, "origin"@);
    let is_r18 = flag_field(raw.is_r18, "is_r18"@);
    let tags = tags_field(raw.tags);
    if source_url is Err {
        Err(source_url->Err_0)
    } else if title is Err {
        Err(title->Err_0)
    } else if author_name is Err {
        Err(author_name->Err_0)
    } else if author_url is Err {
        Err(author_url->Err_0)
    } else if origin is Err {
        Err(origin->Err_0)
    } else if is_r18 is Err {
        Err(is_r18->Err_0)
    } else if tags is Err {
        Err(tags->Err_0)
    } else {
        Ok(
            MetaView {
                source,
                source_id,
                source_url: source_url->Ok_0,
                title: title->Ok_0,
                author_name: author_name->Ok_0,
                author_url: author_url->Ok_0,
                tags: tags->Ok_0,
                is_r18: is_r18->Ok_0,
                origin: origin->Ok_0,
            },
        )
    }
}

/// The validated metadata: the source is trimmed and in lower case.
pub open spec fn validated(raw: RawMetaView) -> Result<MetaView, MetaFault> {
    match text_or_empty(raw.source, "source"@) {
        Err(e) => Err(e),
        Ok(s) => validated_with(outside::unicode_lower(text::trimmed(s)), raw),
    }
}

/// The value of a validation.
pub open spec fn outcome_view(r: Result<ValidatedMeta, MetaError>) -> Result<MetaView, MetaFault> {
    match r {
        Ok(m) => Ok(m@),
        Err(e) => Err(e@),
    }
}

/// Validates metadata whose source is already trimmed and in lower case.
pub fn validate_meta_with_source(source: String, raw: IngestMetaRaw) -> (r: Result<
    ValidatedMeta,
    MetaError,
>)
    ensures
        outcome_view(r) == validated_with(source@, raw@),
{
    if source.as_str().is_empty() {
        return Err(MetaError::MissingSource);
    }
    if !keys::is_safe_source(source.as_str()) {
        return Err(MetaError::InvalidSource);
    }
    let raw_id = match string_or_empty(raw.source_id, "source_id") {
        Ok(s) => s,
        Err(e) => {
            return Err(e);
        },
    };
    let source_id = text::trim(raw_id.as_str()).to_owned();
    if source_id.as_str().is_empty() {
        return Err(MetaError::MissingSourceId);
    }
    if !keys::is_safe_source_id(source_id.as_str()) {
        return Err(MetaError::InvalidSourceId);
    }
    let source_url = match string_or_empty(raw.source_url, "source_url") {
        Ok(s) => s,
        Err(e) => {
            return Err(e);
        },
    };
    let title = match string_or_empty(raw.title, "title") {
        Ok(s) => s,
        Err(e) => {
            return Err(e);
        },
    };
    let author_name = match string_or_empty(raw.author_name, "author_name") {
        Ok(s) => s,
        Err(e) => {
            return Err(e);
        },
    };
    let author_url = match string_or_empty(raw.author_url, "author_url") {
        Ok(s) => s,
        Err(e) => {
            return Err(e);
        },
    };
    let origin = match string_or_empty(raw.origin, "origin") {
        Ok(s) => s,
        Err(e) => {
            return Err(e);
        },
    };
    let is_r18 = match opt_bool(raw.is_r18, "is_r18") {
        Ok(b) => b,
        Err(e) => {
            return Err(e);
        },
    };
    let tags = match opt_tags(raw.tags) {
        Ok(t) => t,
        Err(e) => {
            return Err(e);
        },
    };
    Ok(
        ValidatedMeta {
            source,
            source_id,
            source_url,
            title,
            author_name,
            author_url,
            tags,
            is_r18,
            origin,
        },
    )
}

/// Validates metadata.
pub fn validate_meta(raw: IngestMetaRaw) -> (r: Result<ValidatedMeta, MetaError>)
    ensures
        outcome_view(r) == validated(raw@),
{
    let given = match string_or_empty(raw.source, "source") {
        Ok(s) => s,
        Err(e) => {
            return Err(e);
        },
    };
    let source = outside::to_lowercase(text::trim(given.as_str()));
    let rest = IngestMetaRaw {
        source: None,
        source_id: raw.source_id,
        source_url: raw.source_url,
        title: raw.title,
        author_name: raw.author_name,
        author_url: raw.author_url,
        tags: raw.tags,
        is_r18: raw.is_r18,
        origin: raw.origin,
    };
    validate_meta_with_source(source, rest)
}

/// Validates what was read from the metadata of a request: `None` stands for a
/// text that is no JSON document of the expected shape.
pub fn validate_meta_json(parsed: Option<IngestMetaRaw>) -> (r: Result<ValidatedMeta, MetaError>)
    ensures
        match parsed {
            Some(raw) => outcome_view(r) == validated(raw@),
            None => outcome_view(r) == Err::<MetaView, MetaFault>(MetaFault::InvalidJson),
        },
{
    match parsed {
        Some(raw) => validate_meta(raw),
        None => Err(MetaError::InvalidJson),
    }
}

/// The message about refused metadata.
pub open spec fn meta_message(e: MetaFault) -> Seq<char> {
    match e {
        MetaFault::InvalidJson => "invalid meta json"@,
        MetaFault::MissingSource => "source and source_id required"@,
        MetaFault::MissingSourceId => "source and source_id required"@,
        MetaFault::InvalidSource => "invalid source"@,
        MetaFault::InvalidSourceId => "invalid source_id"@,
        MetaFault::InvalidField(f) => if f == "source_url"@ {
            "invalid source_url"@
        } else if f == "title"@ {
            "invalid title"@
        } else if f == "author_name"@ {
            "invalid author_name"@
        } else if f == "author_url"@ {
            "invalid author_url"@
        } else if f == "tags"@ {
            "invalid tags"@
        } else if f == "is_r18"@ {
            "invalid is_r18"@
        } else if f == "origin"@ {
            "invalid origin"@
        } else {
            "invalid meta field"@
        },
    }
}

impl MetaError {
    /// The message for the caller.
    pub fn message(&self) -> (r: &'static str)
        ensures
            r@ == meta_message(self@),
    {
        match self {
            MetaError::InvalidJson => "invalid meta json",
            MetaError::MissingSource => "source and source_id required",
            MetaError::MissingSourceId => "source and source_id required",
            MetaError::InvalidSource => "invalid source",
            MetaError::InvalidSourceId => "invalid source_id",
            MetaError::InvalidField(f) => if text::same_text(f, "source_url") {
                "invalid source_url"
            } else if text::same_text(f, "title") {
                "invalid title"
            } else if text::same_text(f, "author_name") {
                "invalid author_name"
            } else if text::same_text(f, "author_url") {
                "invalid author_url"
            } else if text::same_text(f, "tags") {
                "invalid tags"
            } else if text::same_text(f, "is_r18") {
                "invalid is_r18"
            } else if text::same_text(f, "origin") {
                "invalid origin"
            } else {
                "invalid meta field"
            },
        }
    }
}

// ---------------------------------------------------------------------------
// Laws
// ---------------------------------------------------------------------------

/// Validated metadata names its work by two safe path segments.
pub proof fn law_validated_is_safe(raw: RawMetaView)
    requires
        validated(raw) is Ok,
    ensures
        keys::safe_source(validated(raw)->Ok_0.source),
        keys::safe_source_id(validated(raw)->Ok_0.source_id),
{
}

/// Validated tags are at most forty, each at most sixty-four characters long,
/// not empty, without white space and different from the others.
pub proof fn law_validated_tags(raw: RawMetaView)
    requires
        validated(raw) is Ok,
    ensures
        ({
            let tags = validated(raw)->Ok_0.tags;
            &&& tags.len() <= MAX_TAGS
            &&& tags.no_duplicates()
            &&& forall|i: int|
                0 <= i < tags.len() ==> 0 < (#[trigger] tags[i]).len() <= tags::MAX_TAG_CHARS
                    && tags::all_ink(tags[i])
        }),
{
    match raw.tags {
        Some(ValueView::List(items)) => {
            lemma_distinct_tags(items);
        },
        _ => {},
    }
}

proof fn lemma_distinct_tags(items: Seq<ItemView>)
    ensures
        distinct_tags(items).no_duplicates(),
        forall|i: int|
            0 <= i < distinct_tags(items).len() ==> 0 < (#[trigger] distinct_tags(items)[i]).len()
                <= tags::MAX_TAG_CHARS && tags::all_ink(distinct_tags(items)[i]),
    decreases items.len(),
{
    if items.len() > 0 {
        lemma_distinct_tags(items.drop_last());
        let before = distinct_tags(items.drop_last());
        match items.last() {
            ItemView::Text(s) => {
                let t = tags::normalized(s);
                tags::law_normalized_shape(s);
                if t.len() > 0 && !before.contains(t) {
                    assert(distinct_tags(items) == before.push(t));
                }
            },
            _ => {},
        }
    }
}

/// Whether an optional field reads as a text: a text as it is, a number as it is
/// written, a truth value by its name, nothing as the empty text.
pub open spec fn reads_as(v: Option<ValueView>, t: Seq<char>) -> bool {
    match v {
        None => t.len() == 0,
        Some(ValueView::Null) => t.len() == 0,
        Some(ValueView::Text(s)) => t == s,
        Some(ValueView::Number { text, integer }) => t == text,
        Some(ValueView::Bool(b)) => (b ==> t == "true"@) && (!b ==> t == "false"@),
        Some(_) => false,
    }
}

/// Whether a field can be read as a text.
pub open spec fn readable(v: Option<ValueView>) -> bool {
    v is None || !(v->0 is List || v->0 is Object)
}

/// Whether a field can be read as a truth value.
pub open spec fn is_flag(v: Option<ValueView>) -> bool {
    v is None || v->0 is Null || v->0 is Bool || (v->0 is Number && v->0->integer is Some)
}

/// Whether a field can be read as tags.
pub open spec fn are_tags(v: Option<ValueView>) -> bool {
    v is None || v->0 is Null || (v->0 is List && !v->0->List_0.contains(ItemView::Other))
}

proof fn lemma_text_field(v: Option<ValueView>, field: Seq<char>)
    ensures
        readable(v) <==> text_or_empty(v, field) is Ok,
        readable(v) ==> reads_as(v, text_or_empty(v, field)->Ok_0),
        !readable(v) ==> text_or_empty(v, field) == Err::<Seq<char>, MetaFault>(
            MetaFault::InvalidField(field),
        ),
{
}

proof fn lemma_tags_field(v: Option<ValueView>)
    ensures
        are_tags(v) <==> tags_field(v) is Ok,
        !are_tags(v) ==> tags_field(v) == Err::<Seq<Seq<char>>, MetaFault>(
            MetaFault::InvalidField("tags"@),
        ),
{
    match v {
        Some(ValueView::List(items)) => {
            if items.contains(ItemView::Other) {
                let i = choose|i: int| 0 <= i < items.len() && items[i] == ItemView::Other;
                assert(items[i] == ItemView::Other);
            } else {
                assert forall|i: int| 0 <= i < items.len() implies #[trigger] items[i]
                    != ItemView::Other by {
                    assert(items.contains(items[i]));
                }
            }
        },
        _ => {},
    }
}

/// Validated metadata is the metadata that was given, field by field: the source
/// and the identifier without the white space around them, the source in lower
/// case; the other texts as they read; R18 exactly where the field says true or a
/// number other than zero; and no tags where none are given.
pub proof fn law_validated_fields(raw: RawMetaView)
    requires
        validated(raw) is Ok,
    ensures
        ({
            let m = validated(raw)->Ok_0;
            &&& exists|s: Seq<char>| #[trigger]
                reads_as(raw.source, s) && m.source == outside::unicode_lower(text::trimmed(s))
            &&& exists|s: Seq<char>| #[trigger]
                reads_as(raw.source_id, s) && m.source_id == text::trimmed(s)
            &&& reads_as(raw.source_url, m.source_url)
            &&& reads_as(raw.title, m.title)
            &&& reads_as(raw.author_name, m.author_name)
            &&& reads_as(raw.author_url, m.author_url)
            &&& reads_as(raw.origin, m.origin)
            &&& m.is_r18 <==> raw.is_r18 is Some && (raw.is_r18->0 == ValueView::Bool(true) || (
            raw.is_r18->0 is Number && raw.is_r18->0->integer != Some(0i64)))
            &&& raw.tags is None || raw.tags->0 is Null ==> m.tags.len() == 0
            &&& raw.tags is Some && raw.tags->0 is List ==> m.tags == tags_of_items_view(
                raw.tags->0->List_0,
            )
        }),
{
    lemma_text_field(raw.source, "source"@);
    lemma_text_field(raw.source_id, "source_id"@);
    lemma_text_field(raw.source_url, "source_url"@);
    lemma_text_field(raw.title, "title"@);
    lemma_text_field(raw.author_name, "author_name"@);
    lemma_text_field(raw.author_url, "author_url"@);
    lemma_text_field(raw.origin, "origin"@);
    lemma_tags_field(raw.tags);
    assert(reads_as(raw.source, text_or_empty(raw.source, "source"@)->Ok_0));
    assert(reads_as(raw.source_id, text_or_empty(raw.source_id, "source_id"@)->Ok_0));
}

/// The tags of a list of items, at most forty.
pub open spec fn tags_of_items_view(items: Seq<ItemView>) -> Seq<Seq<char>> {
    let all = distinct_tags(items);
    if all.len() <= 40 {
        all
    } else {
        all.take(40)
    }
}

/// Metadata is accepted exactly where it names a safe source and a safe
/// identifier, each text can be read as one, R18 as a truth value and the tags as
/// tags. Else the first field that is wrong says so, the source and the identifier
/// before all others.
pub proof fn law_metadata_is_checked(raw: RawMetaView, source: Seq<char>, source_id: Seq<char>)
    requires
        reads_as(raw.source, source),
        reads_as(raw.source_id, source_id),
    ensures
        ({
            let s = outside::unicode_lower(text::trimmed(source));
            let id = text::trimmed(source_id);
            let named = s.len() > 0 && keys::safe_source(s) && id.len() > 0 && keys::safe_source_id(
                id,
            );
            let checked = validated(raw);
            &&& checked is Ok <==> named && readable(raw.source_url) && readable(raw.title)
                && readable(raw.author_name) && readable(raw.author_url) && readable(raw.origin)
                && is_flag(raw.is_r18) && are_tags(raw.tags)
            &&& s.len() == 0 ==> checked == refused(MetaFault::MissingSource)
            &&& s.len() > 0 && !keys::safe_source(s) ==> checked == refused(
                MetaFault::InvalidSource,
            )
            &&& keys::safe_source(s) && id.len() == 0 ==> checked == refused(
                MetaFault::MissingSourceId,
            )
            &&& keys::safe_source(s) && id.len() > 0 && !keys::safe_source_id(id) ==> checked
                == refused(MetaFault::InvalidSourceId)
            &&& named && !readable(raw.source_url) ==> checked == refused(
                MetaFault::InvalidField("source_url"@),
            )
            &&& named && readable(raw.source_url) && !readable(raw.title) ==> checked == refused(
                MetaFault::InvalidField("title"@),
            )
            &&& named && readable(raw.source_url) && readable(raw.title) && !readable(
                raw.author_name,
            ) ==> checked == refused(MetaFault::InvalidField("author_name"@))
            &&& named && readable(raw.source_url) && readable(raw.title) && readable(
                raw.author_name,
            ) && !readable(raw.author_url) ==> checked == refused(
                MetaFault::InvalidField("author_url"@),
            )
            &&& named && readable(raw.source_url) && readable(raw.title) && readable(
                raw.author_name,
            ) && readable(raw.author_url) && !readable(raw.origin) ==> checked == refused(
                MetaFault::InvalidField("origin"@),
            )
            &&& named && readable(raw.source_url) && readable(raw.title) && readable(
                raw.author_name,
            ) && readable(raw.author_url) && readable(raw.origin) && !is_flag(raw.is_r18)
                ==> checked == refused(MetaFault::InvalidField("is_r18"@))
            &&& named && readable(raw.source_url) && readable(raw.title) && readable(
                raw.author_name,
            ) && readable(raw.author_url) && readable(raw.origin) && is_flag(raw.is_r18)
                && !are_tags(raw.tags) ==> checked == refused(MetaFault::InvalidField("tags"@))
        }),
{
    lemma_text_field(raw.source, "source"@);
    lemma_text_field(raw.source_id, "source_id"@);
    lemma_text_field(raw.source_url, "source_url"@);
    lemma_text_field(raw.title, "title"@);
    lemma_text_field(raw.author_name, "author_name"@);
    lemma_text_field(raw.author_url, "author_url"@);
    lemma_text_field(raw.origin, "origin"@);
    lemma_tags_field(raw.tags);
    assert(text_or_empty(raw.source, "source"@)->Ok_0 =~= source);
    assert(text_or_empty(raw.source_id, "source_id"@)->Ok_0 =~= source_id);
}

/// Refused metadata.
pub open spec fn refused(fault: MetaFault) -> Result<MetaView, MetaFault> {
    Err(fault)
}

/// The tags of a list are its texts, normalized: every tag is that of some text,
/// every text that is one has its tag among them, and they stand in the order in
/// which they come up first, so that more items only add tags behind.
pub proof fn law_tags_of_a_list(items: Seq<ItemView>, more: ItemView)
    ensures
        forall|k: int|
            0 <= k < distinct_tags(items).len() ==> exists|i: int|
                0 <= i < items.len() && (#[trigger] items[i]) is Text && tags::normalized(
                    items[i]->Text_0,
                ) == #[trigger] distinct_tags(items)[k],
        forall|i: int|
            0 <= i < items.len() && (#[trigger] items[i]) is Text && tags::normalized(
                items[i]->Text_0,
            ).len() > 0 ==> distinct_tags(items).contains(tags::normalized(items[i]->Text_0)),
        distinct_tags(items).is_prefix_of(distinct_tags(items.push(more))),
        distinct_tags(items.push(more)).len() <= distinct_tags(items).len() + 1,
    decreases items.len(),
{
    assert(items.push(more).drop_last() =~= items);
    if items.len() > 0 {
        let front = items.drop_last();
        let last = items.last();
        law_tags_of_a_list(front, last);
        let all = distinct_tags(items);
        let before = distinct_tags(front);
        assert(front.push(last) =~= items);
        assert forall|k: int| 0 <= k < all.len() implies exists|i: int|
            0 <= i < items.len() && (#[trigger] items[i]) is Text && tags::normalized(
                items[i]->Text_0,
            ) == #[trigger] all[k] by {
            if k < before.len() {
                assert(all[k] == before[k]);
                let i = choose|i: int|
                    0 <= i < front.len() && (#[trigger] front[i]) is Text && tags::normalized(
                        front[i]->Text_0,
                    ) == before[k];
                assert(items[i] == front[i]);
            } else {
                assert(items[items.len() - 1] == last);
            }
        }
        assert forall|i: int|
            0 <= i < items.len() && (#[trigger] items[i]) is Text && tags::normalized(
                items[i]->Text_0,
            ).len() > 0 implies all.contains(tags::normalized(items[i]->Text_0)) by {
            let t = tags::normalized(items[i]->Text_0);
            if i < front.len() {
                assert(front[i] == items[i]);
                let k = choose|k: int| 0 <= k < before.len() && before[k] == t;
                assert(all[k] == t);
            } else if before.contains(t) {
                let k = choose|k: int| 0 <= k < before.len() && before[k] == t;
                assert(all[k] == t);
            } else {
                assert(all[before.len() as int] == t);
            }
        }
    }
}

/// The value of metadata is that of its fields, each under its own name.
pub proof fn law_values_of_metadata(m: ValidatedMeta, raw: IngestMetaRaw)
    ensures
        m@.source == m.source@,
        m@.source_id == m.source_id@,
        m@.source_url == m.source_url@,
        m@.title == m.title@,
        m@.author_name == m.author_name@,
        m@.author_url == m.author_url@,
        m@.tags.len() == m.tags@.len(),
        forall|i: int| 0 <= i < m.tags@.len() ==> m@.tags[i] == (#[trigger] m.tags@[i])@,
        m@.is_r18 == m.is_r18,
        m@.origin == m.origin@,
        raw@.source == value_view(raw.source),
        raw@.source_id == value_view(raw.source_id),
        raw@.source_url == value_view(raw.source_url),
        raw@.title == value_view(raw.title),
        raw@.author_name == value_view(raw.author_name),
        raw@.author_url == value_view(raw.author_url),
        raw@.tags == value_view(raw.tags),
        raw@.is_r18 == value_view(raw.is_r18),
        raw@.origin == value_view(raw.origin),
{
}

} // verus!
