//! JSON documents as the news services return them, and the reshaping of
//! their article lists.

use vstd::prelude::*;

verus! {

broadcast use vstd::std_specs::vec::group_vec_axioms;

/// serde_json's document type, which the parser produces and the printer
/// writes.
#[verifier::external_type_specification]
#[verifier::external_body]
pub struct ExSerdeValue(serde_json::Value);

/// serde_json's number type. A number read from a response is carried
/// through as serde_json holds it, so that it is written out unchanged.
#[verifier::external_type_specification]
#[verifier::external_body]
pub struct ExSerdeNumber(serde_json::Number);

/// A JSON document. Numbers are serde_json's own; an object keeps
/// its members in order.
pub enum Json {
    Null,
    Bool(bool),
    Number(serde_json::Number),
    Str(String),
    Array(Vec<Json>),
    Object(Vec<(String, Json)>),
}

/// The mathematical value of a JSON document.
pub enum JsonValue {
    Null,
    Bool(bool),
    Number(serde_json::Number),
    Str(Seq<char>),
    Array(Seq<JsonValue>),
    Object(Seq<(Seq<char>, JsonValue)>),
}

/// The value of a document.
pub open spec fn value_of(j: Json) -> JsonValue
    decreases j, 0nat,
{
    match j {
        Json::Null => JsonValue::Null,
        Json::Bool(b) => JsonValue::Bool(b),
        Json::Number(n) => JsonValue::Number(n),
        Json::Str(s) => JsonValue::Str(s@),
        Json::Array(items) => JsonValue::Array(values_of(items@)),
        Json::Object(members) => JsonValue::Object(members_of(members@)),
    }
}

/// The values of a list of documents.
pub open spec fn values_of(items: Seq<Json>) -> Seq<JsonValue>
    decreases items, 1nat,
{
    if items.len() == 0 {
        Seq::empty()
    } else {
        values_of(items.drop_last()).push(value_of(items.last()))
    }
}

/// The values of a list of object members.
pub open spec fn members_of(members: Seq<(String, Json)>) -> Seq<(Seq<char>, JsonValue)>
    decreases members, 1nat,
{
    if members.len() == 0 {
        Seq::empty()
    } else {
        members_of(members.drop_last()).push((members.last().0@, value_of(members.last().1)))
    }
}


impl View for Json {
    type V = JsonValue;

    open spec fn view(&self) -> JsonValue {
        value_of(*self)
    }
}

/// The value of an object's member `key` (its first member of that name),
/// `Null` where there is none.
pub open spec fn lookup(members: Seq<(Seq<char>, JsonValue)>, key: Seq<char>) -> JsonValue
    decreases members.len(),
{
    if members.len() == 0 {
        JsonValue::Null
    } else if members[0].0 == key {
        members[0].1
    } else {
        lookup(members.drop_first(), key)
    }
}

/// `v[key]` as serde_json indexes a value: the member `key` of an object,
/// `Null` for anything else.
pub open spec fn get(v: JsonValue, key: Seq<char>) -> JsonValue {
    match v {
        JsonValue::Object(members) => lookup(members, key),
        _ => JsonValue::Null,
    }
}

/// An object whose members are the given names and values, in order.
pub open spec fn object(names: Seq<Seq<char>>, values: Seq<JsonValue>) -> JsonValue {
    JsonValue::Object(Seq::new(names.len(), |i: int| (names[i], values[i])))
}

/// The news services whose article lists are reshaped.
pub enum ArticleSource {
    Gdelt,
    NewsApi,
    GNews,
}

/// The article as it is answered: GDELT's `title`, `url`, `domain` (as
/// `source`), `seendate` (as `date`), `language`, `sourcecountry` (as
/// `source_country`); NewsAPI's `title`, `source.name` (as `source`), `url`,
/// `publishedAt` (as `date`), `description`; GNews's `title`, `url`,
/// `source.name` (as `source`), `publishedAt` (as `date`), `description`,
/// `image`.
pub open spec fn reshaped(source: ArticleSource, a: JsonValue) -> JsonValue {
    match source {
        ArticleSource::Gdelt => object(
            seq!["title"@, "url"@, "source"@, "date"@, "language"@, "source_country"@],
            seq![
                get(a, "title"@),
                get(a, "url"@),
                get(a, "domain"@),
                get(a, "seendate"@),
                get(a, "language"@),
                get(a, "sourcecountry"@),
            ],
        ),
        ArticleSource::NewsApi => object(
            seq!["title"@, "source"@, "url"@, "date"@, "description"@],
            seq![
                get(a, "title"@),
                get(get(a, "source"@), "name"@),
                get(a, "url"@),
                get(a, "publishedAt"@),
                get(a, "description"@),
            ],
        ),
        ArticleSource::GNews => object(
            seq!["title"@, "url"@, "source"@, "date"@, "description"@, "image"@],
            seq![
                get(a, "title"@),
                get(a, "url"@),
                get(get(a, "source"@), "name"@),
                get(a, "publishedAt"@),
                get(a, "description"@),
                get(a, "image"@),
            ],
        ),
    }
}

/// The articles of a response: `data["articles"]` where it is an array,
/// else none.
pub open spec fn articles_of(data: JsonValue) -> Seq<JsonValue> {
    match get(data, "articles"@) {
        JsonValue::Array(items) => items,
        _ => Seq::empty(),
    }
}

/// The answer built from a response: the array of its reshaped articles.
pub open spec fn reshaped_articles(source: ArticleSource, data: JsonValue) -> JsonValue {
    JsonValue::Array(articles_of(data).map_values(|a: JsonValue| reshaped(source, a)))
}

// ---------------------------------------------------------------------------
// Lemmas on the value of a document
// ---------------------------------------------------------------------------

/// The values of a list are the values of its elements.
pub proof fn lemma_values_of(items: Seq<Json>)
    ensures
        values_of(items).len() == items.len(),
        forall|i: int| 0 <= i < items.len() ==> #[trigger] values_of(items)[i] == value_of(items[i]),
    decreases items.len(),
{
    if items.len() > 0 {
        lemma_values_of(items.drop_last());
    }
}

/// The values of a member list are the names and values of its members.
pub proof fn lemma_members_of(members: Seq<(String, Json)>)
    ensures
        members_of(members).len() == members.len(),
        forall|i: int|
            0 <= i < members.len() ==> #[trigger] members_of(members)[i] == (
                members[i].0@,
                value_of(members[i].1),
            ),
    decreases members.len(),
{
    if members.len() > 0 {
        lemma_members_of(members.drop_last());
    }
}

pub proof fn lemma_values_of_push(items: Seq<Json>, j: Json)
    ensures
        values_of(items.push(j)) == values_of(items).push(value_of(j)),
{
    assert(items.push(j).drop_last() =~= items);
}

pub proof fn lemma_members_of_push(members: Seq<(String, Json)>, m: (String, Json))
    ensures
        members_of(members.push(m)) == members_of(members).push((m.0@, value_of(m.1))),
{
    assert(members.push(m).drop_last() =~= members);
}

// ---------------------------------------------------------------------------
// Laws of objects and of the reshaping of articles
// ---------------------------------------------------------------------------

/// A member found at position `i`, with no member of that name before it,
/// is what `lookup` gives.
proof fn lemma_lookup_at(ms: Seq<(Seq<char>, JsonValue)>, key: Seq<char>, i: int)
    requires
        0 <= i < ms.len(),
        ms[i].0 == key,
        forall|j: int| 0 <= j < i ==> #[trigger] ms[j].0 != key,
    ensures
        lookup(ms, key) == ms[i].1,
    decreases i,
{
    if i > 0 {
        assert forall|j: int| 0 <= j < i - 1 implies #[trigger] ms.drop_first()[j].0 != key by {
            assert(ms.drop_first()[j] == ms[j + 1]);
        }
        lemma_lookup_at(ms.drop_first(), key, i - 1);
    }
}

/// The member of an object built from names and values is the value at
/// the first position of its name.
pub proof fn lemma_object_get(names: Seq<Seq<char>>, values: Seq<JsonValue>, i: int)
    requires
        names.len() == values.len(),
        0 <= i < names.len(),
        forall|j: int| 0 <= j < i ==> #[trigger] names[j] != names[i],
    ensures
        get(object(names, values), names[i]) == values[i],
{
    let ms = Seq::new(names.len(), |k: int| (names[k], values[k]));
    assert forall|j: int| 0 <= j < i implies #[trigger] ms[j].0 != names[i] by {
        assert(ms[j].0 == names[j]);
    }
    lemma_lookup_at(ms, names[i], i);
}

/// The member names of the answers, character by character.
pub(crate) proof fn lemma_member_names()
    ensures
        "title"@ == seq!['t', 'i', 't', 'l', 'e'],
        "url"@ == seq!['u', 'r', 'l'],
        "source"@ == seq!['s', 'o', 'u', 'r', 'c', 'e'],
        "date"@ == seq!['d', 'a', 't', 'e'],
        "language"@ == seq!['l', 'a', 'n', 'g', 'u', 'a', 'g', 'e'],
        "source_country"@ == seq!['s', 'o', 'u', 'r', 'c', 'e', '_', 'c', 'o', 'u', 'n', 't', 'r', 'y'],
        "description"@ == seq!['d', 'e', 's', 'c', 'r', 'i', 'p', 't', 'i', 'o', 'n'],
        "image"@ == seq!['i', 'm', 'a', 'g', 'e'],
{
    reveal_strlit("title");
    reveal_strlit("url");
    reveal_strlit("source");
    reveal_strlit("date");
    reveal_strlit("language");
    reveal_strlit("source_country");
    reveal_strlit("description");
    reveal_strlit("image");
    assert("title"@ =~= seq!['t', 'i', 't', 'l', 'e']);
    assert("url"@ =~= seq!['u', 'r', 'l']);
    assert("source"@ =~= seq!['s', 'o', 'u', 'r', 'c', 'e']);
    assert("date"@ =~= seq!['d', 'a', 't', 'e']);
    assert("language"@ =~= seq!['l', 'a', 'n', 'g', 'u', 'a', 'g', 'e']);
    assert("source_country"@ =~= seq!['s', 'o', 'u', 'r', 'c', 'e', '_', 'c', 'o', 'u', 'n', 't', 'r', 'y']);
    assert("description"@ =~= seq!['d', 'e', 's', 'c', 'r', 'i', 'p', 't', 'i', 'o', 'n']);
    assert("image"@ =~= seq!['i', 'm', 'a', 'g', 'e']);
}

/// Each member of a reshaped article is the article's member of the name
/// that the service's table gives for it, and nothing else is answered:
/// GDELT answers `title`, `url`, `source` (its `domain`), `date` (its
/// `seendate`), `language` and `source_country` (its `sourcecountry`);
/// NewsAPI answers `title`, `source` (its `source.name`), `url`, `date` (its
/// `publishedAt`) and `description`; GNews answers `title`, `url`, `source`
/// (its `source.name`), `date` (its `publishedAt`), `description` and
/// `image`.
pub proof fn lemma_reshaped_members(a: JsonValue)
    ensures
        get(reshaped(ArticleSource::Gdelt, a), "title"@) == get(a, "title"@),
        get(reshaped(ArticleSource::Gdelt, a), "url"@) == get(a, "url"@),
        get(reshaped(ArticleSource::Gdelt, a), "source"@) == get(a, "domain"@),
        get(reshaped(ArticleSource::Gdelt, a), "date"@) == get(a, "seendate"@),
        get(reshaped(ArticleSource::Gdelt, a), "language"@) == get(a, "language"@),
        get(reshaped(ArticleSource::Gdelt, a), "source_country"@) == get(a, "sourcecountry"@),
        reshaped(ArticleSource::Gdelt, a) matches JsonValue::Object(ms) && ms.len() == 6,
        get(reshaped(ArticleSource::NewsApi, a), "title"@) == get(a, "title"@),
        get(reshaped(ArticleSource::NewsApi, a), "source"@) == get(get(a, "source"@), "name"@),
        get(reshaped(ArticleSource::NewsApi, a), "url"@) == get(a, "url"@),
        get(reshaped(ArticleSource::NewsApi, a), "date"@) == get(a, "publishedAt"@),
        get(reshaped(ArticleSource::NewsApi, a), "description"@) == get(a, "description"@),
        reshaped(ArticleSource::NewsApi, a) matches JsonValue::Object(ms) && ms.len() == 5,
        get(reshaped(ArticleSource::GNews, a), "title"@) == get(a, "title"@),
        get(reshaped(ArticleSource::GNews, a), "url"@) == get(a, "url"@),
        get(reshaped(ArticleSource::GNews, a), "source"@) == get(get(a, "source"@), "name"@),
        get(reshaped(ArticleSource::GNews, a), "date"@) == get(a, "publishedAt"@),
        get(reshaped(ArticleSource::GNews, a), "description"@) == get(a, "description"@),
        get(reshaped(ArticleSource::GNews, a), "image"@) == get(a, "image"@),
        reshaped(ArticleSource::GNews, a) matches JsonValue::Object(ms) && ms.len() == 6,
{
    lemma_member_names();
    let gn = seq!["title"@, "url"@, "source"@, "date"@, "language"@, "source_country"@];
    let gv = seq![
        get(a, "title"@),
        get(a, "url"@),
        get(a, "domain"@),
        get(a, "seendate"@),
        get(a, "language"@),
        get(a, "sourcecountry"@),
    ];
    assert(reshaped(ArticleSource::Gdelt, a) == object(gn, gv));
    lemma_object_get(gn, gv, 0);
    lemma_object_get(gn, gv, 1);
    lemma_object_get(gn, gv, 2);
    lemma_object_get(gn, gv, 3);
    lemma_object_get(gn, gv, 4);
    assert(gn[5].len() == 14);
    lemma_object_get(gn, gv, 5);
    let nn = seq!["title"@, "source"@, "url"@, "date"@, "description"@];
    let nv = seq![
        get(a, "title"@),
        get(get(a, "source"@), "name"@),
        get(a, "url"@),
        get(a, "publishedAt"@),
        get(a, "description"@),
    ];
    assert(reshaped(ArticleSource::NewsApi, a) == object(nn, nv));
    lemma_object_get(nn, nv, 0);
    lemma_object_get(nn, nv, 1);
    lemma_object_get(nn, nv, 2);
    lemma_object_get(nn, nv, 3);
    lemma_object_get(nn, nv, 4);
    let sn = seq!["title"@, "url"@, "source"@, "date"@, "description"@, "image"@];
    let sv = seq![
        get(a, "title"@),
        get(a, "url"@),
        get(get(a, "source"@), "name"@),
        get(a, "publishedAt"@),
        get(a, "description"@),
        get(a, "image"@),
    ];
    assert(reshaped(ArticleSource::GNews, a) == object(sn, sv));
    assert(sn[0][0] != sn[5][0]);
    lemma_object_get(sn, sv, 0);
    lemma_object_get(sn, sv, 1);
    lemma_object_get(sn, sv, 2);
    lemma_object_get(sn, sv, 3);
    lemma_object_get(sn, sv, 4);
    lemma_object_get(sn, sv, 5);
}

/// The answer to a response holds one reshaped article for each of the
/// response's articles, in the same order.
pub proof fn lemma_reshaped_articles(source: ArticleSource, data: JsonValue)
    ensures
        reshaped_articles(source, data) matches JsonValue::Array(xs) && xs.len()
            == articles_of(data).len() && forall|i: int|
            0 <= i < xs.len() ==> #[trigger] xs[i] == reshaped(source, articles_of(data)[i]),
{
}

// ---------------------------------------------------------------------------
// Executable operations
// ---------------------------------------------------------------------------

/// Calls `Clone::clone` on a serde_json number; serde_json derives it, so
/// the copy is the same number.
#[verifier::external_body]
fn copy_number(n: &serde_json::Number) -> (r: serde_json::Number)
    ensures
        r == *n,
{
    n.clone()
}

/// A copy of a document.
pub fn copy_json(j: &Json) -> (r: Json)
    ensures
        r@ == j@,
    decreases j,
{
    match j {
        Json::Null => Json::Null,
        Json::Bool(b) => Json::Bool(*b),
        Json::Number(n) => Json::Number(copy_number(n)),
        Json::Str(s) => Json::Str(s.clone()),
        Json::Array(items) => {
            let mut out: Vec<Json> = Vec::new();
            let mut i: usize = 0;
            while i < items.len()
                invariant
                    i <= items.len(),
                    *j == Json::Array(*items),
                    values_of(out@) == values_of(items@.take(i as int)),
                decreases items.len() - i,
            {
                assert(decreases_to!(*j => (*j)->Array_0));
                assert(decreases_to!(*items => items[i as int]));
                let c = copy_json(&items[i]);
                proof {
                    lemma_values_of_push(out@, c);
                    lemma_values_of_push(items@.take(i as int), items@[i as int]);
                    assert(items@.take(i + 1) =~= items@.take(i as int).push(items@[i as int]));
                }
                out.push(c);
                i = i + 1;
            }
            assert(items@.take(items.len() as int) =~= items@);
            Json::Array(out)
        },
        Json::Object(members) => {
            let mut out: Vec<(String, Json)> = Vec::new();
            let mut i: usize = 0;
            while i < members.len()
                invariant
                    i <= members.len(),
                    *j == Json::Object(*members),
                    members_of(out@) == members_of(members@.take(i as int)),
                decreases members.len() - i,
            {
                assert(decreases_to!(*j => (*j)->Object_0));
                assert(decreases_to!(*members => members[i as int]));
                assert(decreases_to!(members[i as int] => members[i as int].1));
                let c = (members[i].0.clone(), copy_json(&members[i].1));
                proof {
                    lemma_members_of_push(out@, c);
                    lemma_members_of_push(members@.take(i as int), members@[i as int]);
                    assert(members@.take(i + 1) =~= members@.take(i as int).push(members@[i as int]));
                }
                out.push(c);
                i = i + 1;
            }
            assert(members@.take(members.len() as int) =~= members@);
            Json::Object(out)
        },
    }
}

/// The position of the first member named `key`, if there is one.
fn find_member(members: &Vec<(String, Json)>, key: &String) -> (r: Option<usize>)
    ensures
        match r {
            Some(i) => i < members.len() && lookup(members_of(members@), key@) == value_of(
                members@[i as int].1,
            ),
            None => lookup(members_of(members@), key@) == JsonValue::Null,
        },
{
    proof {
        lemma_members_of(members@);
    }
    let ghost ms = members_of(members@);
    let mut i: usize = 0;
    assert(ms.skip(0) =~= ms);
    while i < members.len()
        invariant
            i <= members.len(),
            ms == members_of(members@),
            ms.len() == members.len(),
            forall|k: int| 0 <= k < members.len() ==> #[trigger] ms[k] == (members@[k].0@, value_of(members@[k].1)),
            lookup(ms, key@) == lookup(ms.skip(i as int), key@),
        decreases members.len() - i,
    {
        assert(ms.skip(i as int)[0] == ms[i as int]);
        assert(ms.skip(i as int).drop_first() =~= ms.skip(i + 1));
        if members[i].0 == *key {
            return Some(i);
        }
        i = i + 1;
    }
    None
}

/// `j[key]`: a copy of the member `key` of an object, `Null` otherwise.
pub fn member(j: &Json, key: &str) -> (r: Json)
    ensures
        r@ == get(j@, key@),
{
    match j {
        Json::Object(members) => {
            let k = String::from_str(key);
            match find_member(members, &k) {
                Some(i) => copy_json(&members[i].1),
                None => Json::Null,
            }
        },
        _ => Json::Null,
    }
}

/// Appends a member to an object under construction.
fn push_member(out: &mut Vec<(String, Json)>, name: &str, value: Json)
    ensures
        members_of(final(out)@) == members_of(old(out)@).push((name@, value@)),
{
    let m = (String::from_str(name), value);
    proof {
        lemma_members_of_push(out@, m);
    }
    out.push(m);
}

/// The reshaped form of one article.
fn reshape(source: &ArticleSource, a: &Json) -> (r: Json)
    ensures
        r@ == reshaped(*source, a@),
{
    let mut out: Vec<(String, Json)> = Vec::new();
    match source {
        ArticleSource::Gdelt => {
            push_member(&mut out, "title", member(a, "title"));
            push_member(&mut out, "url", member(a, "url"));
            push_member(&mut out, "source", member(a, "domain"));
            push_member(&mut out, "date", member(a, "seendate"));
            push_member(&mut out, "language", member(a, "language"));
            push_member(&mut out, "source_country", member(a, "sourcecountry"));
        },
        ArticleSource::NewsApi => {
            push_member(&mut out, "title", member(a, "title"));
            let src = member(a, "source");
            push_member(&mut out, "source", member(&src, "name"));
            push_member(&mut out, "url", member(a, "url"));
            push_member(&mut out, "date", member(a, "publishedAt"));
            push_member(&mut out, "description", member(a, "description"));
        },
        ArticleSource::GNews => {
            push_member(&mut out, "title", member(a, "title"));
            push_member(&mut out, "url", member(a, "url"));
            let src = member(a, "source");
            push_member(&mut out, "source", member(&src, "name"));
            push_member(&mut out, "date", member(a, "publishedAt"));
            push_member(&mut out, "description", member(a, "description"));
            push_member(&mut out, "image", member(a, "image"));
        },
    }
    let r = Json::Object(out);
    assert(r@ == reshaped(*source, a@)) by {
        assert(members_of(Seq::<(String, Json)>::empty()) =~= Seq::<(Seq<char>, JsonValue)>::empty());
        match source {
            ArticleSource::Gdelt => {
                assert(members_of(out@) =~= match reshaped(*source, a@) {
                    JsonValue::Object(m) => m,
                    _ => Seq::empty(),
                });
            },
            ArticleSource::NewsApi => {
                assert(members_of(out@) =~= match reshaped(*source, a@) {
                    JsonValue::Object(m) => m,
                    _ => Seq::empty(),
                });
            },
            ArticleSource::GNews => {
                assert(members_of(out@) =~= match reshaped(*source, a@) {
                    JsonValue::Object(m) => m,
                    _ => Seq::empty(),
                });
            },
        }
    }
    r
}

/// The answer to a news service's response: the array of its articles
/// (`data["articles"]`, none where that is not an array), each reshaped for
/// the service it came from.
pub fn reshape_articles(source: &ArticleSource, data: &Json) -> (r: Json)
    ensures
        r@ == reshaped_articles(*source, data@),
{
    let list = member(data, "articles");
    let mut out: Vec<Json> = Vec::new();
    match &list {
        Json::Array(items) => {
            proof {
                lemma_values_of(items@);
            }
            let ghost vs = values_of(items@);
            let mut i: usize = 0;
            while i < items.len()
                invariant
                    i <= items.len(),
                    vs == values_of(items@),
                    vs.len() == items.len(),
                    forall|k: int| 0 <= k < items.len() ==> #[trigger] vs[k] == value_of(items@[k]),
                    values_of(out@) == vs.take(i as int).map_values(|a: JsonValue| reshaped(*source, a)),
                decreases items.len() - i,
            {
                let c = reshape(source, &items[i]);
                proof {
                    lemma_values_of_push(out@, c);
                    assert(vs.take(i + 1).map_values(|a: JsonValue| reshaped(*source, a))
                        =~= vs.take(i as int).map_values(|a: JsonValue| reshaped(*source, a)).push(
                        reshaped(*source, vs[i as int]),
                    ));
                }
                out.push(c);
                i = i + 1;
            }
            assert(vs.take(items.len() as int) =~= vs);
        },
        _ => {
            assert(values_of(out@) =~= Seq::<JsonValue>::empty());
            assert(articles_of(data@) =~= Seq::<JsonValue>::empty());
            assert(articles_of(data@).map_values(|a: JsonValue| reshaped(*source, a)) =~= Seq::<JsonValue>::empty());
        },
    }
    Json::Array(out)
}

// ---------------------------------------------------------------------------
// Reading and writing JSON text (serde_json)
// ---------------------------------------------------------------------------

/// The document that serde_json reads from `text`, `None` where `text` is
/// not JSON.
pub uninterp spec fn parsed_json(text: Seq<char>) -> Option<JsonValue>;

/// The text that serde_json's pretty printer writes for a document.
pub uninterp spec fn pretty_json(v: JsonValue) -> Seq<char>;

/// The library's form of a serde_json document, variant by variant.
/// Nothing is stated of it: it only serves `parse_json`.
#[verifier::external_body]
fn json_of_value(v: serde_json::Value) -> Json {
    match v {
        serde_json::Value::Null => Json::Null,
        serde_json::Value::Bool(b) => Json::Bool(b),
        serde_json::Value::Number(n) => Json::Number(n),
        serde_json::Value::String(t) => Json::Str(t),
        serde_json::Value::Array(a) => Json::Array(a.into_iter().map(json_of_value).collect()),
        serde_json::Value::Object(m) => Json::Object(
            m.into_iter().map(|(k, x)| (k, json_of_value(x))).collect(),
        ),
    }
}

/// serde_json's form of a library document, variant by variant; members
/// are inserted in order. Nothing is stated of it: it only serves
/// `to_pretty`.
#[verifier::external_body]
fn value_of_json(j: &Json) -> serde_json::Value {
    match j {
        Json::Null => serde_json::Value::Null,
        Json::Bool(b) => serde_json::Value::Bool(*b),
        Json::Number(n) => serde_json::Value::Number(n.clone()),
        Json::Str(t) => serde_json::Value::String(t.clone()),
        Json::Array(a) => serde_json::Value::Array(a.iter().map(value_of_json).collect()),
        Json::Object(m) => serde_json::Value::Object(
            m.iter().map(|(k, x)| (k.clone(), value_of_json(x))).collect(),
        ),
    }
}

/// Calls `serde_json::from_str::<serde_json::Value>` on `text`. The
/// document read is named `parsed_json(text@)`, which is a function of the
/// text alone; serde_json's grammar is not stated.
#[verifier::external_body]
pub(crate) fn parse_json(text: &str) -> (r: Option<Json>)
    ensures
        match r {
            Some(j) => parsed_json(text@) == Some(j@),
            None => parsed_json(text@) is None,
        },
{
    match serde_json::from_str::<serde_json::Value>(text) {
        Ok(v) => Some(json_of_value(v)),
        Err(_) => None,
    }
}

/// Calls `serde_json::to_string_pretty` on the document (the empty text if
/// it fails). The text written is named `pretty_json(j@)`; serde_json's
/// layout is not stated.
#[verifier::external_body]
pub(crate) fn to_pretty(j: &Json) -> (s: String)
    ensures
        s@ == pretty_json(j@),
{
    serde_json::to_string_pretty(&value_of_json(j)).unwrap_or_default()
}

/// A GDELT article list as it is answered: its reshaped articles,
/// pretty-printed.
pub fn format_articles(data: &Json) -> (r: String)
    ensures
        r@ == pretty_json(reshaped_articles(ArticleSource::Gdelt, data@)),
{
    to_pretty(&reshape_articles(&ArticleSource::Gdelt, data))
}

/// A NewsAPI article list as it is answered: its reshaped articles,
/// pretty-printed.
pub fn format_newsapi(data: &Json) -> (r: String)
    ensures
        r@ == pretty_json(reshaped_articles(ArticleSource::NewsApi, data@)),
{
    to_pretty(&reshape_articles(&ArticleSource::NewsApi, data))
}

/// A GNews article list as it is answered: its reshaped articles,
/// pretty-printed.
pub fn format_gnews(data: &Json) -> (r: String)
    ensures
        r@ == pretty_json(reshaped_articles(ArticleSource::GNews, data@)),
{
    to_pretty(&reshape_articles(&ArticleSource::GNews, data))
}

} // verus!
