//! JSON values as the RPC replies and request bodies carry them.
use vstd::prelude::*;

use crate::text;
use crate::types::Number;

verus! {

/// A JSON value.
#[derive(Debug, PartialEq)]
pub enum Json {
    Null,
    Bool(bool),
    Number(Number),
    Text(String),
    List(Vec<Json>),
    Object(Vec<Member>),
}

/// A member of a JSON object.
#[derive(Debug, PartialEq)]
pub struct Member {
    pub key: String,
    pub value: Json,
}

/// The model of a JSON value.
#[verifier::ext_equal]
pub enum JsonView {
    Null,
    Bool(bool),
    Number(Number),
    Text(Seq<char>),
    List(Seq<JsonView>),
    Object(Seq<(Seq<char>, JsonView)>),
}

impl View for Json {
    type V = JsonView;

    open spec fn view(&self) -> JsonView
        decreases self,
    {
        match self {
            Json::Null => JsonView::Null,
            Json::Bool(b) => JsonView::Bool(*b),
            Json::Number(n) => JsonView::Number(*n),
            Json::Text(s) => JsonView::Text(s@),
            Json::List(items) => JsonView::List(
                Seq::new(
                    items@.len(),
                    |i: int|
                        if 0 <= i < items@.len() {
                            items@[i].view()
                        } else {
                            JsonView::Null
                        },
                ),
            ),
            Json::Object(members) => JsonView::Object(
                Seq::new(
                    members@.len(),
                    |i: int|
                        if 0 <= i < members@.len() {
                            (members@[i].key@, members@[i].value.view())
                        } else {
                            (seq![], JsonView::Null)
                        },
                ),
            ),
        }
    }
}

/// The value of the first member with a key.
pub open spec fn first_member(members: Seq<Member>, key: Seq<char>) -> Option<Json>
    decreases members.len(),
{
    if members.len() == 0 {
        None
    } else if members[0].key@ == key {
        Some(members[0].value)
    } else {
        first_member(members.skip(1), key)
    }
}

/// The value of an object's member; `None` for a value that is no object.
pub open spec fn member(v: Json, key: Seq<char>) -> Option<Json> {
    match v {
        Json::Object(members) => first_member(members@, key),
        _ => None,
    }
}

/// The text that a value is.
pub open spec fn text_of(v: Option<Json>) -> Option<Seq<char>> {
    match v {
        Some(Json::Text(s)) => Some(s@),
        _ => None,
    }
}

/// The unsigned integer that a value is.
pub open spec fn unsigned_of(v: Option<Json>) -> Option<u64> {
    match v {
        Some(Json::Number(Number::Unsigned(n))) => Some(n),
        _ => None,
    }
}

/// The signed integer that a value is.
pub open spec fn signed_of(v: Option<Json>) -> Option<i64> {
    match v {
        Some(Json::Number(Number::Unsigned(n))) => if n <= i64::MAX {
            Some(n as i64)
        } else {
            None
        },
        Some(Json::Number(Number::Negative(n))) => Some(n),
        _ => None,
    }
}

/// The number that a value is.
pub open spec fn number_of(v: Option<Json>) -> Option<Number> {
    match v {
        Some(Json::Number(n)) => Some(n),
        _ => None,
    }
}

/// The values of the list that a value is.
pub open spec fn list_of(v: Option<Json>) -> Option<Seq<Json>> {
    match v {
        Some(Json::List(items)) => Some(items@),
        _ => None,
    }
}

/// The models of JSON values.
pub open spec fn json_views(items: Seq<Json>) -> Seq<JsonView> {
    Seq::new(items.len(), |i: int| items[i]@)
}

/// The models of members.
pub open spec fn member_views(members: Seq<Member>) -> Seq<(Seq<char>, JsonView)> {
    Seq::new(members.len(), |i: int| (members[i].key@, members[i].value@))
}

/// The model of a list of texts.
pub open spec fn text_list(texts: Seq<Seq<char>>) -> JsonView {
    JsonView::List(Seq::new(texts.len(), |i: int| JsonView::Text(texts[i])))
}

/// What a function makes of the values of a list, without those of which it makes nothing.
pub open spec fn collected<V>(items: Seq<Json>, f: spec_fn(Json) -> Option<V>) -> Seq<V>
    decreases items.len(),
{
    if items.len() == 0 {
        seq![]
    } else {
        match f(items.last()) {
            Some(v) => collected(items.drop_last(), f).push(v),
            None => collected(items.drop_last(), f),
        }
    }
}

/// An integer as a JSON number.
pub open spec fn integer(n: i64) -> Number {
    if n < 0 {
        Number::Negative(n)
    } else {
        Number::Unsigned(n as u64)
    }
}

impl Member {
    /// A member of an object.
    pub fn new(key: &str, value: Json) -> (r: Member)
        ensures
            r.key@ == key@,
            r.value@ == value@,
    {
        Member { key: key.to_owned(), value }
    }
}

impl Json {
    /// A text.
    pub fn text(s: &str) -> (r: Json)
        ensures
            r@ == JsonView::Text(s@),
    {
        Json::Text(s.to_owned())
    }

    /// An integer.
    pub fn integer(n: i64) -> (r: Json)
        ensures
            r@ == JsonView::Number(integer(n)),
    {
        if n < 0 {
            Json::Number(Number::Negative(n))
        } else {
            Json::Number(Number::Unsigned(n as u64))
        }
    }

    /// A list.
    pub fn list(items: Vec<Json>) -> (r: Json)
        ensures
            r@ == JsonView::List(json_views(items@)),
    {
        let ghost all = json_views(items@);
        let r = Json::List(items);
        proof {
            reveal_with_fuel(<Json as View>::view, 2);
            let seen = r@->List_0;
            assert(seen =~= all);
        }
        r
    }

    /// A list of texts.
    pub fn texts(items: &Vec<&'static str>) -> (r: Json)
        ensures
            r@ == text_list(text::str_views(items@)),
    {
        let mut out: Vec<Json> = Vec::new();
        let mut i: usize = 0;
        while i < items.len()
            invariant
                i <= items@.len(),
                out@.len() == i,
                forall|j: int| 0 <= j < i ==> (#[trigger] out@[j])@ == JsonView::Text(items@[j]@),
            decreases items@.len() - i,
        {
            out.push(Json::text(items[i]));
            i = i + 1;
        }
        let ghost all = json_views(out@);
        let r = Json::list(out);
        assert(all =~= text_list(text::str_views(items@))->List_0);
        r
    }

    /// An object.
    pub fn object(members: Vec<Member>) -> (r: Json)
        ensures
            r@ == JsonView::Object(member_views(members@)),
    {
        let ghost all = member_views(members@);
        let r = Json::Object(members);
        proof {
            reveal_with_fuel(<Json as View>::view, 2);
            let seen = r@->Object_0;
            assert(seen =~= all);
        }
        r
    }

    /// The value of a member.
    pub fn get(&self, key: &str) -> (r: Option<&Json>)
        ensures
            match r {
                Some(v) => member(*self, key@) == Some(*v),
                None => member(*self, key@) is None,
            },
    {
        match self {
            Json::Object(members) => {
                let mut i: usize = 0;
                assert(members@.skip(0) =~= members@);
                while i < members.len()
                    invariant
                        i <= members@.len(),
                        member(*self, key@) == first_member(
                            members@.skip(i as int),
                            key@,
                        ),
                    decreases members@.len() - i,
                {
                    if *members[i].key.as_str() == *key {
                        return Some(&members[i].value);
                    }
                    assert(members@.skip(i as int).skip(1) =~= members@.skip(i + 1));
                    i = i + 1;
                }
                None
            },
            _ => None,
        }
    }

    /// The text of a member.
    pub fn text_at(&self, key: &str) -> (r: Option<&str>)
        ensures
            text::opt_str(r) == text_of(member(*self, key@)),
    {
        match self.get(key) {
            Some(Json::Text(s)) => Some(s.as_str()),
            _ => None,
        }
    }

    /// The unsigned integer of a member.
    pub fn unsigned_at(&self, key: &str) -> (r: Option<u64>)
        ensures
            r == unsigned_of(member(*self, key@)),
    {
        match self.get(key) {
            Some(Json::Number(Number::Unsigned(n))) => Some(*n),
            _ => None,
        }
    }

    /// The signed integer of a member.
    pub fn signed_at(&self, key: &str) -> (r: Option<i64>)
        ensures
            r == signed_of(member(*self, key@)),
    {
        match self.get(key) {
            Some(Json::Number(Number::Unsigned(n))) => if *n <= 9_223_372_036_854_775_807u64 {
                Some(*n as i64)
            } else {
                None
            },
            Some(Json::Number(Number::Negative(n))) => Some(*n),
            _ => None,
        }
    }

    /// The number of a member.
    pub fn number_at(&self, key: &str) -> (r: Option<Number>)
        ensures
            r == number_of(member(*self, key@)),
    {
        match self.get(key) {
            Some(Json::Number(n)) => Some(*n),
            _ => None,
        }
    }

    /// The list of a member.
    pub fn list_at(&self, key: &str) -> (r: Option<&Vec<Json>>)
        ensures
            match r {
                Some(items) => list_of(member(*self, key@)) == Some(items@),
                None => list_of(member(*self, key@)) is None,
            },
    {
        match self.get(key) {
            Some(Json::List(items)) => Some(items),
            _ => None,
        }
    }
}

// ── Laws ──

/// For how many of the first `k` items `f` gives a value.
pub open spec fn given<V>(items: Seq<Json>, f: spec_fn(Json) -> Option<V>, k: int) -> int
    decreases k,
{
    if k <= 0 {
        0
    } else if f(items[k - 1]) is Some {
        given(items, f, k - 1) + 1
    } else {
        given(items, f, k - 1)
    }
}

/// `out` holds what `f` gives for the items, one for each item for which it gives a value, in the
/// order of the items, and nothing else.
pub open spec fn are_those_given<V>(
    out: Seq<V>,
    items: Seq<Json>,
    f: spec_fn(Json) -> Option<V>,
) -> bool {
    &&& out.len() == given(items, f, items.len() as int)
    &&& forall|j: int|
        0 <= j < items.len() ==> (f(#[trigger] items[j]) matches Some(v) ==> 0 <= given(
            items,
            f,
            j,
        ) < out.len() && out[given(items, f, j)] == v)
}

/// What is collected from items is what they give, one by one and in their order.
pub proof fn law_collected_in_order<V>(items: Seq<Json>, f: spec_fn(Json) -> Option<V>)
    ensures
        are_those_given(collected(items, f), items, f),
    decreases items.len(),
{
    let out = collected(items, f);
    if items.len() > 0 {
        let init = items.drop_last();
        let n = init.len() as int;
        law_collected_in_order(init, f);
        lemma_given_prefix(items, f, n);
        assert forall|j: int| 0 <= j < items.len() implies (f(#[trigger] items[j]) matches Some(v)
            ==> 0 <= given(items, f, j) < out.len() && out[given(items, f, j)] == v) by {
            if j < n {
                assert(init[j] == items[j]);
                lemma_given_prefix(items, f, j);
            }
        }
    }
}

proof fn lemma_given_prefix<V>(items: Seq<Json>, f: spec_fn(Json) -> Option<V>, k: int)
    requires
        k < items.len(),
    ensures
        given(items, f, k) == given(items.drop_last(), f, k),
        given(items, f, k) >= 0,
    decreases k,
{
    if k > 0 {
        lemma_given_prefix(items, f, k - 1);
        assert(items.drop_last()[k - 1] == items[k - 1]);
    }
}

/// A value is among those that items give exactly if some item gives it.
pub proof fn law_given_values<V>(
    out: Seq<V>,
    items: Seq<Json>,
    f: spec_fn(Json) -> Option<V>,
    v: V,
)
    requires
        out == collected(items, f),
    ensures
        out.contains(v) <==> exists|i: int| 0 <= i < items.len() && f(#[trigger] items[i]) == Some(v),
    decreases items.len(),
{
    if items.len() > 0 {
        let init = items.drop_last();
        let before = collected(init, f);
        law_given_values(before, init, f, v);
        if before.contains(v) {
            let k = before.index_of(v);
            assert(out[k] == v);
            let i = choose|i: int| 0 <= i < init.len() && f(#[trigger] init[i]) == Some(v);
            assert(items[i] == init[i]);
        }
        if f(items.last()) == Some(v) {
            assert(out[out.len() - 1] == v);
            assert(items[items.len() - 1] == items.last());
        }
        if out.contains(v) && !before.contains(v) {
            let k = out.index_of(v);
            if k < before.len() {
                assert(before[k] == v);
            }
            assert(items[items.len() - 1] == items.last());
        }
        if exists|i: int| 0 <= i < items.len() && f(#[trigger] items[i]) == Some(v) {
            let i = choose|i: int| 0 <= i < items.len() && f(#[trigger] items[i]) == Some(v);
            if i < init.len() {
                assert(init[i] == items[i]);
            }
        }
    }
}

/// The member of an object under a key is the first one with that key; there is none where no
/// member has it.
pub proof fn law_member_is_the_first(members: Vec<Member>, key: Seq<char>, i: int)
    ensures
        0 <= i < members@.len() && members@[i].key@ == key && (forall|j: int|
            0 <= j < i ==> (#[trigger] members@[j]).key@ != key) ==> member(
            Json::Object(members),
            key,
        ) == Some(members@[i].value),
        (forall|j: int| 0 <= j < members@.len() ==> (#[trigger] members@[j]).key@ != key)
            ==> member(Json::Object(members), key) is None,
{
    lemma_first_member(members@, key, i);
}

proof fn lemma_first_member(members: Seq<Member>, key: Seq<char>, i: int)
    ensures
        0 <= i < members.len() && members[i].key@ == key && (forall|j: int|
            0 <= j < i ==> (#[trigger] members[j]).key@ != key) ==> first_member(members, key)
            == Some(members[i].value),
        (forall|j: int| 0 <= j < members.len() ==> (#[trigger] members[j]).key@ != key)
            ==> first_member(members, key) is None,
    decreases members.len(),
{
    if members.len() > 0 {
        let rest = members.skip(1);
        assert forall|j: int| 0 <= j < rest.len() implies #[trigger] rest[j] == members[j + 1] by {
        }
        lemma_first_member(rest, key, i - 1);
        assert(members[0].key@ == members[0].key@);
    }
}

} // verus!
