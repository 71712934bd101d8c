//! A JSON value as the crate builds it: request bodies, acknowledgements and
//! Block Kit blocks. Members of an object keep the order they were added in.
use vstd::prelude::*;

use crate::text::same;

verus! {

/// A JSON value.
#[derive(Debug, PartialEq, Eq)]
pub enum Json {
    Bool(bool),
    Number(u64),
    Text(String),
    Array(Vec<Json>),
    Object(Vec<(String, Json)>),
}

/// The mathematical form of a [`Json`] value.
pub enum JsonView {
    Bool(bool),
    Number(nat),
    Text(Seq<char>),
    Array(Seq<JsonView>),
    Object(Seq<(Seq<char>, JsonView)>),
}

impl View for Json {
    type V = JsonView;

    open spec fn view(&self) -> JsonView
        decreases self,
    {
        match self {
            Json::Bool(b) => JsonView::Bool(*b),
            Json::Number(n) => JsonView::Number(*n as nat),
            Json::Text(s) => JsonView::Text(s@),
            Json::Array(v) => JsonView::Array(
                Seq::new(
                    v@.len(),
                    |i: int|
                        if 0 <= i < v@.len() {
                            v@[i].view()
                        } else {
                            arbitrary()
                        },
                ),
            ),
            Json::Object(m) => JsonView::Object(
                Seq::new(
                    m@.len(),
                    |i: int|
                        if 0 <= i < m@.len() {
                            (m@[i].0@, m@[i].1.view())
                        } else {
                            arbitrary()
                        },
                ),
            ),
        }
    }
}

/// The values of an array.
pub open spec fn values(v: Seq<Json>) -> Seq<JsonView> {
    v.map_values(|j: Json| j@)
}

/// The members of an object.
pub open spec fn members(m: Seq<(String, Json)>) -> Seq<(Seq<char>, JsonView)> {
    m.map_values(|p: (String, Json)| (p.0@, p.1@))
}

/// What the form of an array or an object is made of.
pub proof fn lemma_parts(j: Json)
    ensures
        j is Array ==> j@ == JsonView::Array(values(j->Array_0@)),
        j is Object ==> j@ == JsonView::Object(members(j->Object_0@)),
{
    reveal_with_fuel(<Json as View>::view, 2);
    if j is Array {
        assert(j@->Array_0 =~= values(j->Array_0@));
    } else if j is Object {
        assert(j@->Object_0 =~= members(j->Object_0@));
    }
}

/// The members after `key` was given `value`: in place of what it had, or at
/// the end when it is new.
pub open spec fn with_member(
    m: Seq<(Seq<char>, JsonView)>,
    key: Seq<char>,
    value: JsonView,
) -> Seq<(Seq<char>, JsonView)>
    decreases m.len(),
{
    if m.len() == 0 {
        seq![(key, value)]
    } else if m[0].0 == key {
        seq![(key, value)] + m.drop_first()
    } else {
        seq![m[0]] + with_member(m.drop_first(), key, value)
    }
}

/// The members of an object under construction.
pub struct Members {
    list: Vec<(String, Json)>,
}

impl View for Members {
    type V = Seq<(Seq<char>, JsonView)>;

    closed spec fn view(&self) -> Seq<(Seq<char>, JsonView)> {
        members(self.list@)
    }
}

impl Members {
    /// No members yet.
    pub fn new() -> (r: Members)
        ensures
            r@ == Seq::<(Seq<char>, JsonView)>::empty(),
    {
        let r = Members { list: Vec::new() };
        assert(r@ =~= Seq::<(Seq<char>, JsonView)>::empty());
        r
    }

    /// Add a member at the end.
    pub fn put(self, key: &str, value: Json) -> (r: Members)
        ensures
            r@ == self@.push((key@, value@)),
    {
        let mut list = self.list;
        list.push((key.to_owned(), value));
        let r = Members { list };
        assert(r@ =~= self@.push((key@, value@)));
        r
    }

    /// Add a text member at the end.
    pub fn put_text(self, key: &str, value: &str) -> (r: Members)
        ensures
            r@ == self@.push((key@, JsonView::Text(value@))),
    {
        self.put(key, Json::Text(value.to_owned()))
    }

    /// The object with these members.
    pub fn object(self) -> (r: Json)
        ensures
            r@ == JsonView::Object(self@),
    {
        let r = Json::Object(self.list);
        proof {
            lemma_parts(r);
        }
        r
    }
}

/// The array of these values.
pub fn array(v: Vec<Json>) -> (r: Json)
    ensures
        r@ == JsonView::Array(values(v@)),
{
    let r = Json::Array(v);
    proof {
        lemma_parts(r);
    }
    r
}

/// Give `key` of the object `body` the value `value`. A value that is not an
/// object is left as it is.
pub fn set_member(body: &mut Json, key: &str, value: Json)
    ensures
        final(body)@ == match old(body)@ {
            JsonView::Object(m) => JsonView::Object(with_member(m, key@, value@)),
            other => other,
        },
{
    proof {
        lemma_parts(*body);
    }
    if let Json::Object(m) = body {
        let ghost all = members(m@);
        let mut i: usize = 0;
        while i < m.len() && !same(m[i].0.as_str(), key)
            invariant
                i <= m@.len(),
                all == members(m@),
                forall|k: int| 0 <= k < i ==> (#[trigger] all[k]).0 != key@,
            decreases m@.len() - i,
        {
            i = i + 1;
        }
        proof {
            lemma_with_member(all, key@, value@, i as int);
        }
        if i < m.len() {
            m[i] = (key.to_owned(), value);
        } else {
            m.push((key.to_owned(), value));
        }
        assert(members(m@) =~= with_member(all, key@, value@));
    }
    proof {
        lemma_parts(*body);
    }
}

/// Where the new value goes, by the position of the first member with its key.
proof fn lemma_with_member(m: Seq<(Seq<char>, JsonView)>, key: Seq<char>, value: JsonView, at: int)
    requires
        0 <= at <= m.len(),
        forall|k: int| 0 <= k < at ==> (#[trigger] m[k]).0 != key,
        at < m.len() ==> m[at].0 == key,
    ensures
        with_member(m, key, value) =~= if at < m.len() {
            m.update(at, (key, value))
        } else {
            m.push((key, value))
        },
    decreases m.len(),
{
    if m.len() > 0 && at > 0 {
        let rest = m.drop_first();
        assert forall|k: int| 0 <= k < at - 1 implies (#[trigger] rest[k]).0 != key by {
            assert(rest[k] == m[k + 1]);
        }
        lemma_with_member(rest, key, value, at - 1);
    }
}

/// What the members say for `key`: the value of the first one with that name.
pub open spec fn member_in(m: Seq<(Seq<char>, JsonView)>, key: Seq<char>) -> Option<JsonView>
    decreases m.len(),
{
    if m.len() == 0 {
        None
    } else if m[0].0 == key {
        Some(m[0].1)
    } else {
        member_in(m.drop_first(), key)
    }
}

/// What an object says for `key`.
pub open spec fn member(j: JsonView, key: Seq<char>) -> Option<JsonView> {
    match j {
        JsonView::Object(m) => member_in(m, key),
        _ => None,
    }
}

/// Giving a member a value gives it just that value, and leaves what every
/// other member says as it was.
pub proof fn law_a_member_that_is_set_is_read_back(
    m: Seq<(Seq<char>, JsonView)>,
    key: Seq<char>,
    value: JsonView,
    other: Seq<char>,
)
    ensures
        member_in(with_member(m, key, value), key) == Some(value),
        other != key ==> member_in(with_member(m, key, value), other) == member_in(m, other),
        with_member(m, key, value).len() == m.len() + if member_in(m, key) is Some {
            0int
        } else {
            1int
        },
    decreases m.len(),
{
    let all = with_member(m, key, value);
    reveal_with_fuel(member_in, 2);
    if m.len() == 0 {
        assert(all.drop_first() =~= seq![]);
    } else if m[0].0 == key {
        assert(all.drop_first() =~= m.drop_first());
    } else {
        let rest = m.drop_first();
        law_a_member_that_is_set_is_read_back(rest, key, value, other);
        assert(all.drop_first() =~= with_member(rest, key, value));
    }
}

/// What three members say.
pub proof fn lemma_three_members(m: Seq<(Seq<char>, JsonView)>)
    requires
        m.len() == 3,
        m[0].0 != m[1].0,
        m[0].0 != m[2].0,
        m[1].0 != m[2].0,
    ensures
        member_in(m, m[0].0) == Some(m[0].1),
        member_in(m, m[1].0) == Some(m[1].1),
        member_in(m, m[2].0) == Some(m[2].1),
        forall|key: Seq<char>|
            key != m[0].0 && key != m[1].0 && key != m[2].0 ==> (#[trigger] member_in(m, key)) is None,
{
    reveal_with_fuel(member_in, 4);
    let a = m.drop_first();
    let b = a.drop_first();
    assert(a[0] == m[1] && b[0] == m[2] && a[1] == m[2]);
    assert(b.drop_first().len() == 0);
}

} // verus!
