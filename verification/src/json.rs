//! JSON documents with their members in order, and the replies made of them.

use crate::outside;
use crate::text;
use vstd::prelude::*;

verus! {

/// A JSON document. The members of an object keep their order.
#[derive(Debug, PartialEq, Eq)]
pub enum Json {
    Null,
    Bool(bool),
    Num(i128),
    Text(String),
    List(Vec<Json>),
    Object(Vec<Member>),
    /// A document that is already written out.
    Written(String),
}

/// A member of a JSON object.
#[derive(Debug, PartialEq, Eq)]
pub struct Member {
    pub name: String,
    pub value: Json,
}

/// The mathematical value of a [`Member`].
pub struct MemberView {
    pub name: Seq<char>,
    pub value: JsonView,
}

/// The mathematical value of a [`Json`].
pub enum JsonView {
    Null,
    Bool(bool),
    Num(int),
    Text(Seq<char>),
    List(Seq<JsonView>),
    Object(Seq<MemberView>),
    Written(Seq<char>),
}

impl View for Json {
    type V = JsonView;

    open spec fn view(&self) -> JsonView
        decreases self,
    {
        match self {
            Json::Null => JsonView::Null,
            Json::Bool(b) => JsonView::Bool(*b),
            Json::Num(n) => JsonView::Num(*n as int),
            Json::Text(t) => JsonView::Text(t@),
            Json::List(l) => JsonView::List(
                Seq::new(
                    l@.len(),
                    |i: int|
                        if 0 <= i < l@.len() {
                            l@[i].view()
                        } else {
                            JsonView::Null
                        },
                ),
            ),
            Json::Object(l) => JsonView::Object(
                Seq::new(
                    l@.len(),
                    |i: int|
                        if 0 <= i < l@.len() {
                            MemberView { name: l@[i].name@, value: l@[i].value.view() }
                        } else {
                            MemberView { name: Seq::empty(), value: JsonView::Null }
                        },
                ),
            ),
            Json::Written(t) => JsonView::Written(t@),
        }
    }
}

/// The compact text of a document, its members in their order.
pub open spec fn json_text(document: JsonView) -> Seq<char>
    decreases document,
{
    match document {
        JsonView::Null => "null"@,
        JsonView::Bool(true) => "true"@,
        JsonView::Bool(false) => "false"@,
        JsonView::Num(n) => text::signed_decimal(n),
        JsonView::Text(t) => outside::json_string(t),
        JsonView::List(l) => seq!['['] + text::joined(item_texts(l), seq![',']) + seq![']'],
        JsonView::Object(l) => seq!['{'] + text::joined(member_texts(l), seq![',']) + seq!['}'],
        JsonView::Written(t) => t,
    }
}

/// The compact texts of the items of a list.
pub open spec fn item_texts(items: Seq<JsonView>) -> Seq<Seq<char>>
    decreases items,
{
    Seq::new(
        items.len(),
        |i: int|
            if 0 <= i < items.len() {
                json_text(items[i])
            } else {
                Seq::empty()
            },
    )
}

/// The compact texts of the members of an object.
pub open spec fn member_texts(fields: Seq<MemberView>) -> Seq<Seq<char>>
    decreases fields,
{
    Seq::new(
        fields.len(),
        |i: int|
            if 0 <= i < fields.len() {
                outside::json_string(fields[i].name) + seq![':'] + json_text(fields[i].value)
            } else {
                Seq::empty()
            },
    )
}

/// How deeply a document may be nested to be read again.
pub const MAX_DEPTH: u8 = 127;

/// A document of at most `depth` levels whose text is read as the same document:
/// the names of an object are in ascending order, so none is there twice, and a
/// number fits in 64 bits.
pub open spec fn orderly(document: JsonView, depth: nat) -> bool
    decreases depth,
{
    match document {
        JsonView::Num(n) => i64::MIN <= n <= u64::MAX,
        JsonView::List(l) => {
            &&& depth > 0
            &&& forall|i: int|
                0 <= i < l.len() ==> orderly(#[trigger] l[i], (depth - 1) as nat)
        },
        JsonView::Object(l) => {
            &&& depth > 0
            &&& forall|i: int, j: int|
                0 <= i < j < l.len() ==> text::comes_before(
                    (#[trigger] l[i]).name,
                    (#[trigger] l[j]).name,
                )
            &&& forall|i: int|
                0 <= i < l.len() ==> orderly((#[trigger] l[i]).value, (depth - 1) as nat)
        },
        JsonView::Written(_) => false,
        _ => true,
    }
}

/// Whether a text is the compact text of an orderly document.
pub open spec fn is_compact(t: Seq<char>) -> bool {
    exists|document: JsonView|
        orderly(document, MAX_DEPTH as nat) && #[trigger] json_text(document) == t
}

/// Whether a document is an object whose first member of a name has a value.
pub open spec fn tells(document: JsonView, name: Seq<char>, value: JsonView) -> bool {
    match document {
        JsonView::Object(l) => exists|k: int|
            {
                &&& 0 <= k < l.len()
                &&& (#[trigger] l[k]).name == name
                &&& l[k].value == value
                &&& forall|j: int| 0 <= j < k ==> (#[trigger] l[j]).name != name
            },
        _ => false,
    }
}

/// How many members an object has.
pub open spec fn member_count(document: JsonView) -> nat {
    match document {
        JsonView::Object(l) => l.len(),
        _ => 0,
    }
}

/// A name of an object has one value: looking it up twice gives the same.
pub proof fn law_one_value_for_a_name(
    document: JsonView,
    name: Seq<char>,
    a: JsonView,
    b: JsonView,
)
    requires
        tells(document, name, a),
        tells(document, name, b),
    ensures
        a == b,
{
    let l = document->Object_0;
    let i = choose|k: int|
        {
            &&& 0 <= k < l.len()
            &&& (#[trigger] l[k]).name == name
            &&& l[k].value == a
            &&& forall|j: int| 0 <= j < k ==> (#[trigger] l[j]).name != name
        };
    let k = choose|k: int|
        {
            &&& 0 <= k < l.len()
            &&& (#[trigger] l[k]).name == name
            &&& l[k].value == b
            &&& forall|j: int| 0 <= j < k ==> (#[trigger] l[j]).name != name
        };
    assert(i == k) by {
        if i < k {
            assert(l[i].name != name);
        }
        if k < i {
            assert(l[k].name != name);
        }
    }
}

/// The values of a list of documents.
pub open spec fn documents(list: Seq<Json>) -> Seq<JsonView> {
    list.map_values(|j: Json| j@)
}

/// The values of a list of members.
pub open spec fn members(list: Seq<Member>) -> Seq<MemberView> {
    list.map_values(|m: Member| MemberView { name: m.name@, value: m.value@ })
}

/// A list of texts as documents.
pub open spec fn text_documents(list: Seq<Seq<char>>) -> Seq<JsonView> {
    list.map_values(|t: Seq<char>| JsonView::Text(t))
}

/// A list of numbers as documents.
pub open spec fn number_documents(list: Seq<i64>) -> Seq<JsonView> {
    list.map_values(|n: i64| JsonView::Num(n as int))
}

/// The members of an object under construction.
pub struct Members {
    pub list: Vec<Member>,
}

/// The mathematical value of [`Members`].
pub struct MembersView {
    pub list: Seq<MemberView>,
}

/// No members.
pub open spec fn no_members() -> MembersView {
    MembersView { list: Seq::empty() }
}

impl MembersView {
    /// One more member behind the others.
    pub open spec fn with(self, name: Seq<char>, value: JsonView) -> MembersView {
        MembersView { list: self.list.push(MemberView { name, value }) }
    }

    /// The object with these members.
    pub open spec fn object(self) -> JsonView {
        JsonView::Object(self.list)
    }
}

impl View for Members {
    type V = MembersView;

    open spec fn view(&self) -> MembersView {
        MembersView { list: members(self.list@) }
    }
}

impl Members {
    /// No members.
    pub fn new() -> (r: Members)
        ensures
            r@ == no_members(),
    {
        let r = Members { list: Vec::new() };
        assert(r@.list =~= Seq::<MemberView>::empty());
        r
    }

    /// One more member behind the others.
    pub fn with(self, name: &str, value: Json) -> (r: Members)
        ensures
            r@ == self@.with(name@, value@),
    {
        let mut list = self.list;
        list.push(Member { name: name.to_owned(), value });
        let r = Members { list };
        assert(r@.list =~= self@.list.push(MemberView { name: name@, value: value@ }));
        r
    }

    /// The object with these members.
    pub fn object(self) -> (r: Json)
        ensures
            r@ == self@.object(),
    {
        let list = self.list;
        let ghost fields = members(list@);
        let r = Json::Object(list);
        proof {
            match r@ {
                JsonView::Object(l) => {
                    assert(l =~= fields);
                },
                _ => {},
            }
        }
        r
    }
}

fn quoted(t: &str) -> (r: String)
    ensures
        r@ == outside::json_string(t@),
{
    match outside::write_string(t) {
        Some(r) => r,
        None => String::new(),
    }
}

impl Json {
    /// A text.
    pub fn text(t: &str) -> (r: Json)
        ensures
            r@ == JsonView::Text(t@),
    {
        Json::Text(t.to_owned())
    }

    /// A list of documents.
    pub fn list(items: Vec<Json>) -> (r: Json)
        ensures
            r@ == JsonView::List(documents(items@)),
    {
        let ghost docs = documents(items@);
        let r = Json::List(items);
        proof {
            match r@ {
                JsonView::List(l) => {
                    assert(l =~= docs);
                },
                _ => {},
            }
        }
        r
    }

    /// A list of texts.
    pub fn texts(items: &[String]) -> (r: Json)
        ensures
            r@ == JsonView::List(text_documents(text::texts(items@))),
    {
        let mut out: Vec<Json> = Vec::new();
        let mut i: usize = 0;
        let ghost want = text_documents(text::texts(items@));
        while i < items.len()
            invariant
                i <= items@.len(),
                want == text_documents(text::texts(items@)),
                documents(out@) == want.take(i as int),
            decreases items@.len() - i,
        {
            let item = Json::text(items[i].as_str());
            let ghost before = documents(out@);
            out.push(item);
            proof {
                assert(documents(out@) =~= before.push(item@));
                assert(want.take(i + 1) =~= want.take(i as int).push(want[i as int]));
            }
            i += 1;
        }
        assert(want.take(items@.len() as int) =~= want);
        Json::list(out)
    }

    /// A list of numbers.
    pub fn numbers(items: &[i64]) -> (r: Json)
        ensures
            r@ == JsonView::List(number_documents(items@)),
    {
        let mut out: Vec<Json> = Vec::new();
        let mut i: usize = 0;
        let ghost want = number_documents(items@);
        while i < items.len()
            invariant
                i <= items@.len(),
                want == number_documents(items@),
                documents(out@) == want.take(i as int),
            decreases items@.len() - i,
        {
            let item = Json::Num(items[i] as i128);
            let ghost before = documents(out@);
            out.push(item);
            proof {
                assert(documents(out@) =~= before.push(item@));
                assert(want.take(i + 1) =~= want.take(i as int).push(want[i as int]));
            }
            i += 1;
        }
        assert(want.take(items@.len() as int) =~= want);
        Json::list(out)
    }

    /// The compact text of the document.
    pub fn print(&self) -> (r: String)
        ensures
            r@ == json_text(self@),
        decreases self,
    {
        match self {
            Json::Null => "null".to_owned(),
            Json::Bool(b) => if *b {
                "true".to_owned()
            } else {
                "false".to_owned()
            },
            Json::Num(n) => text::signed_text(*n),
            Json::Text(t) => quoted(t.as_str()),
            Json::List(list) => {
                let mut parts: Vec<String> = Vec::new();
                let mut i: usize = 0;
                while i < list.len()
                    invariant
                        self is List,
                        self->List_0 == list,
                        i <= list@.len(),
                        parts@.len() == i,
                        forall|k: int|
                            0 <= k < i ==> (#[trigger] parts@[k])@ == json_text(list@[k]@),
                    decreases list@.len() - i,
                {
                    let part = list[i].print();
                    parts.push(part);
                    i += 1;
                }
                let inner = text::join(parts.as_slice(), ",");
                let r = text::concat3("[", inner.as_str(), "]");
                proof {
                    reveal_strlit("[");
                    reveal_strlit(",");
                    reveal_strlit("]");
                    assert("["@ =~= seq!['[']);
                    assert(","@ =~= seq![',']);
                    assert("]"@ =~= seq![']']);
                    assert(text::texts(parts@) =~= item_texts(self@->List_0));
                }
                r
            },
            Json::Object(list) => {
                let mut parts: Vec<String> = Vec::new();
                let mut i: usize = 0;
                while i < list.len()
                    invariant
                        self is Object,
                        self->Object_0 == list,
                        i <= list@.len(),
                        parts@.len() == i,
                        forall|k: int|
                            0 <= k < i ==> (#[trigger] parts@[k])@ == outside::json_string(
                                list@[k].name@,
                            ) + ":"@ + json_text(list@[k].value@),
                    decreases list@.len() - i,
                {
                    let name = quoted(list[i].name.as_str());
                    let value = list[i].value.print();
                    parts.push(text::concat3(name.as_str(), ":", value.as_str()));
                    i += 1;
                }
                let inner = text::join(parts.as_slice(), ",");
                let r = text::concat3("{", inner.as_str(), "}");
                proof {
                    reveal_strlit("{");
                    reveal_strlit(",");
                    reveal_strlit(":");
                    reveal_strlit("}");
                    assert("{"@ =~= seq!['{']);
                    assert(","@ =~= seq![',']);
                    assert(":"@ =~= seq![':']);
                    assert("}"@ =~= seq!['}']);
                    assert(text::texts(parts@) =~= member_texts(self@->Object_0));
                }
                r
            },
            Json::Written(t) => t.clone(),
        }
    }

    /// The first member of an object with the name `key`.
    pub fn get(&self, key: &str) -> (r: Option<&Json>)
        ensures
            match self {
                Json::Object(list) => match r {
                    Some(found) => exists|i: int|
                        {
                            &&& 0 <= i < list@.len()
                            &&& (#[trigger] list@[i]).name@ == key@
                            &&& list@[i].value == *found
                            &&& forall|j: int| 0 <= j < i ==> (#[trigger] list@[j]).name@ != key@
                        },
                    None => forall|j: int| 0 <= j < list@.len() ==> (#[trigger] list@[j]).name@ != key@,
                },
                _ => r is None,
            },
    {
        match self {
            Json::Object(list) => {
                let mut i: usize = 0;
                while i < list.len()
                    invariant
                        self is Object,
                        self->Object_0 == list,
                        i <= list@.len(),
                        forall|j: int| 0 <= j < i ==> (#[trigger] list@[j]).name@ != key@,
                    decreases list@.len() - i,
                {
                    if text::same_text(list[i].name.as_str(), key) {
                        assert(list@[i as int].name@ == key@);
                        return Some(&list[i].value);
                    }
                    i += 1;
                }
                None
            },
            _ => None,
        }
    }
}

/// An answer to a request: an HTTP status and a JSON body.
#[derive(Debug, PartialEq, Eq)]
pub struct Reply {
    pub status: u16,
    pub body: Json,
}

/// The mathematical value of a [`Reply`].
pub struct ReplyView {
    pub status: u16,
    pub body: JsonView,
}

impl View for Reply {
    type V = ReplyView;

    open spec fn view(&self) -> ReplyView {
        ReplyView { status: self.status, body: self.body@ }
    }
}

/// The reply to a refused request: `ok` is false and `error` says why.
pub open spec fn refusal_view(message: Seq<char>, status: u16) -> ReplyView {
    ReplyView {
        status,
        body: no_members().with("error"@, JsonView::Text(message)).with(
            "ok"@,
            JsonView::Bool(false),
        ).object(),
    }
}

/// The reply to a refused request.
pub fn refusal(message: &str, status: u16) -> (r: Reply)
    ensures
        r@ == refusal_view(message@, status),
{
    let body = Members::new().with("error", Json::text(message)).with(
        "ok",
        Json::Bool(false),
    ).object();
    Reply { status, body }
}

/// The reply of status 200 with the object of these members.
pub open spec fn success_view(fields: MembersView) -> ReplyView {
    ReplyView { status: 200, body: fields.object() }
}

/// The reply of status 200 with the object of these members.
pub fn success(fields: Members) -> (r: Reply)
    ensures
        r@ == success_view(fields@),
{
    Reply { status: 200, body: fields.object() }
}

/// The reply to a request that failed inside the service.
pub fn failure(message: &str) -> (r: Reply)
    ensures
        r@ == refusal_view(message@, 500),
{
    refusal(message, 500)
}

/// The reply to a health check.
pub open spec fn health_view() -> ReplyView {
    success_view(
        no_members().with("ok"@, JsonView::Bool(true)).with(
            "service"@,
            JsonView::Text("vitrine"@),
        ),
    )
}

/// The reply to a health check.
pub fn health() -> (r: Reply)
    ensures
        r@ == health_view(),
{
    success(Members::new().with("ok", Json::Bool(true)).with("service", Json::text("vitrine")))
}

// ---------------------------------------------------------------------------
// What replies and lists say
// ---------------------------------------------------------------------------

/// Whether a reply refuses a request: `ok` is false, `error` is the message, and
/// there is nothing else.
pub open spec fn is_refusal(reply: ReplyView, message: Seq<char>, status: u16) -> bool {
    &&& reply.status == status
    &&& member_count(reply.body) == 2
    &&& tells(reply.body, "ok"@, JsonView::Bool(false))
    &&& tells(reply.body, "error"@, JsonView::Text(message))
}

/// A refusal reads as one.
pub proof fn law_refusal_reads(message: Seq<char>, status: u16)
    ensures
        is_refusal(refusal_view(message, status), message, status),
{
    reveal_strlit("ok");
    reveal_strlit("error");
    assert("ok"@.len() != "error"@.len());
    let l = refusal_view(message, status).body->Object_0;
    assert(l[0].name == "error"@ && l[0].value == JsonView::Text(message));
    assert(l[1].name == "ok"@ && l[1].value == JsonView::Bool(false));
    assert("ok"@.len() != "error"@.len());
}

/// A list of texts or numbers keeps its items and their order.
pub proof fn law_lists_keep_their_items(texts: Seq<Seq<char>>, numbers: Seq<i64>)
    ensures
        text_documents(texts).len() == texts.len(),
        number_documents(numbers).len() == numbers.len(),
        forall|i: int|
            0 <= i < texts.len() ==> text_documents(texts)[i] == JsonView::Text(
                #[trigger] texts[i],
            ),
        forall|i: int|
            0 <= i < numbers.len() ==> number_documents(numbers)[i] == JsonView::Num(
                (#[trigger] numbers[i]) as int,
            ),
{
}

/// The text of a document shows all of it: a list its items between brackets, an
/// object its members between braces, each name in quotes before its value.
pub proof fn law_text_of_documents(
    n: int,
    t: Seq<char>,
    a: JsonView,
    b: JsonView,
    name: Seq<char>,
    other: Seq<char>,
)
    ensures
        json_text(JsonView::Null) == "null"@,
        json_text(JsonView::Bool(true)) == "true"@,
        json_text(JsonView::Bool(false)) == "false"@,
        json_text(JsonView::Num(n)) == text::signed_decimal(n),
        json_text(JsonView::Text(t)) == outside::json_string(t),
        json_text(JsonView::List(seq![a, b])) =~= seq!['['] + json_text(a) + seq![','] + json_text(
            b,
        ) + seq![']'],
        json_text(
            JsonView::Object(
                seq![MemberView { name, value: a }, MemberView { name: other, value: b }],
            ),
        ) =~= seq!['{'] + outside::json_string(name) + seq![':'] + json_text(a) + seq![',']
            + outside::json_string(other) + seq![':'] + json_text(b) + seq!['}'],
{
    reveal_with_fuel(text::joined, 3);
    let items = seq![a, b];
    let texts = item_texts(items);
    assert(texts =~= seq![json_text(a), json_text(b)]);
    assert(texts.drop_last() =~= seq![json_text(a)]);
    assert(json_text(JsonView::List(items)) == seq!['['] + text::joined(texts, seq![',']) + seq![
        ']',
    ]);
    let fields = seq![MemberView { name, value: a }, MemberView { name: other, value: b }];
    let parts = member_texts(fields);
    assert(parts.len() == 2);
    assert(parts[0] == outside::json_string(name) + seq![':'] + json_text(a));
    assert(parts[1] == outside::json_string(other) + seq![':'] + json_text(b));
    assert(parts.drop_last() =~= seq![parts[0]]);
    assert(json_text(JsonView::Object(fields)) == seq!['{'] + text::joined(parts, seq![',']) + seq![
        '}',
    ]);
}

/// A health check is answered by the name of the service, a success by its
/// document.
pub proof fn law_health(fields: MembersView)
    ensures
        health_view().status == 200,
        member_count(health_view().body) == 2,
        tells(health_view().body, "ok"@, JsonView::Bool(true)),
        tells(health_view().body, "service"@, JsonView::Text("vitrine"@)),
        success_view(fields).status == 200,
        success_view(fields).body == JsonView::Object(fields.list),
{
    reveal_strlit("ok");
    reveal_strlit("service");
    assert("ok"@.len() != "service"@.len());
    let d = health_view().body;
    let l_d = d->Object_0;
    assert(l_d[0].name == "ok"@ && l_d[0].value == JsonView::Bool(true));
    assert(l_d[1].name == "service"@ && l_d[1].value == JsonView::Text("vitrine"@));
}

} // verus!
