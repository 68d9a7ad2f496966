//! JSON values, as the status patches are made of them.

use vstd::prelude::*;

verus! {

/// A JSON value.
pub enum Json {
    /// `null`.
    Null,
    /// A truth value.
    Bool(bool),
    /// A whole number.
    Int(i64),
    /// A string.
    Str(String),
    /// An array.
    Arr(Vec<Json>),
    /// An object, its members in the order in which they were written.
    Obj(Vec<(String, Json)>),
}

/// What a JSON value holds.
pub enum JsonView {
    /// `null`.
    Null,
    /// A truth value.
    Bool(bool),
    /// A whole number.
    Int(int),
    /// A string.
    Str(Seq<char>),
    /// An array.
    Arr(Seq<JsonView>),
    /// An object.
    Obj(Seq<(Seq<char>, JsonView)>),
}

impl Json {
    /// What the value holds.
    pub open spec fn view(&self) -> JsonView
        decreases self,
    {
        match self {
            Json::Null => JsonView::Null,
            Json::Bool(b) => JsonView::Bool(*b),
            Json::Int(n) => JsonView::Int(*n as int),
            Json::Str(s) => JsonView::Str(s@),
            Json::Arr(v) => JsonView::Arr(
                Seq::new(
                    v@.len(),
                    |i: int|
                        if 0 <= i < v@.len() {
                            v@[i].view()
                        } else {
                            JsonView::Null
                        },
                ),
            ),
            Json::Obj(v) => JsonView::Obj(
                Seq::new(
                    v@.len(),
                    |i: int|
                        if 0 <= i < v@.len() {
                            (v@[i].0@, v@[i].1.view())
                        } else {
                            (Seq::empty(), JsonView::Null)
                        },
                ),
            ),
        }
    }
}

/// What a list of values holds.
pub open spec fn items(v: Seq<Json>) -> Seq<JsonView> {
    Seq::new(v.len(), |i: int| v[i].view())
}

/// What a list of members holds.
pub open spec fn members(v: Seq<(String, Json)>) -> Seq<(Seq<char>, JsonView)> {
    Seq::new(v.len(), |i: int| (v[i].0@, v[i].1.view()))
}

/// A JSON string.
pub fn text(s: &str) -> (r: Json)
    ensures
        r@ == JsonView::Str(s@),
{
    Json::Str(s.to_owned())
}

/// A JSON string, or `null` where there is no text.
pub open spec fn opt_str(s: Option<Seq<char>>) -> JsonView {
    match s {
        Some(t) => JsonView::Str(t),
        None => JsonView::Null,
    }
}

/// A JSON string, or `null` where there is no text.
pub fn opt_str_json(s: &Option<String>) -> (r: Json)
    ensures
        r@ == opt_str(crate::text::opt_text(*s)),
{
    match s {
        Some(t) => text(t.as_str()),
        None => Json::Null,
    }
}

/// A whole number.
pub fn number(n: i64) -> (r: Json)
    ensures
        r@ == JsonView::Int(n as int),
{
    Json::Int(n)
}

/// An array.
pub fn arr(v: Vec<Json>) -> (r: Json)
    ensures
        r@ == JsonView::Arr(items(v@)),
{
    let r = Json::Arr(v);
    assert(r@->Arr_0 =~= items(v@));
    r
}

/// A JSON object under construction.
pub struct Object {
    /// The members written so far.
    pub fields: Vec<(String, Json)>,
}

impl Object {
    /// The members written so far.
    pub open spec fn view(&self) -> Seq<(Seq<char>, JsonView)> {
        members(self.fields@)
    }

    /// An object with no members.
    pub fn new() -> (r: Self)
        ensures
            r@ == Seq::<(Seq<char>, JsonView)>::empty(),
    {
        let r = Object { fields: Vec::new() };
        assert(r@ =~= Seq::<(Seq<char>, JsonView)>::empty());
        r
    }

    /// The object with one more member.
    pub fn with(self, key: &str, value: Json) -> (r: Self)
        ensures
            r@ == self@.push((key@, value@)),
    {
        let mut fields = self.fields;
        fields.push((key.to_owned(), value));
        let r = Object { fields };
        assert(r@ =~= self@.push((key@, value@)));
        r
    }

    /// The finished object.
    pub fn done(self) -> (r: Json)
        ensures
            r@ == JsonView::Obj(self@),
    {
        let r = Json::Obj(self.fields);
        assert(r@->Obj_0 =~= self@);
        r
    }
}

/// The value of the first member with this name.
pub open spec fn member(s: Seq<(Seq<char>, JsonView)>, key: Seq<char>) -> Option<JsonView>
    decreases s.len(),
{
    if s.len() == 0 {
        None
    } else if s[0].0 == key {
        Some(s[0].1)
    } else {
        member(s.drop_first(), key)
    }
}

impl JsonView {
    /// What an object has under a name; `null` where it has nothing there.
    pub open spec fn at(self, key: Seq<char>) -> JsonView {
        match self {
            JsonView::Obj(s) => match member(s, key) {
                Some(v) => v,
                None => JsonView::Null,
            },
            _ => JsonView::Null,
        }
    }

    /// The elements of an array.
    pub open spec fn elements(self) -> Seq<JsonView> {
        match self {
            JsonView::Arr(v) => v,
            _ => Seq::empty(),
        }
    }
}

/// A member that is added is found, unless one before it has the same name.
pub proof fn lemma_member_push(s: Seq<(Seq<char>, JsonView)>, x: (Seq<char>, JsonView), key: Seq<char>)
    ensures
        member(s.push(x), key) == match member(s, key) {
            Some(v) => Some(v),
            None => if x.0 == key {
                Some(x.1)
            } else {
                None
            },
        },
    decreases s.len(),
{
    if s.len() == 0 {
        assert(s.push(x).drop_first() =~= Seq::<(Seq<char>, JsonView)>::empty());
    } else {
        assert(s.push(x).drop_first() =~= s.drop_first().push(x));
        lemma_member_push(s.drop_first(), x, key);
    }
}

/// The members of an object with one member.
pub proof fn lemma_member_one(x: (Seq<char>, JsonView), key: Seq<char>)
    ensures
        member(seq![x], key) == if x.0 == key {
            Some(x.1)
        } else {
            None
        },
{
    let none = Seq::<(Seq<char>, JsonView)>::empty();
    lemma_member_push(none, x, key);
    assert(none.push(x) =~= seq![x]);
}

/// The members of an object with two members.
pub proof fn lemma_member_two(
    x: (Seq<char>, JsonView),
    y: (Seq<char>, JsonView),
    key: Seq<char>,
)
    ensures
        member(seq![x, y], key) == if x.0 == key {
            Some(x.1)
        } else if y.0 == key {
            Some(y.1)
        } else {
            None
        },
{
    lemma_member_one(x, key);
    lemma_member_push(seq![x], y, key);
    assert(seq![x].push(y) =~= seq![x, y]);
}

/// The members of an object with three members.
pub proof fn lemma_member_three(
    x: (Seq<char>, JsonView),
    y: (Seq<char>, JsonView),
    z: (Seq<char>, JsonView),
    key: Seq<char>,
)
    ensures
        member(seq![x, y, z], key) == if x.0 == key {
            Some(x.1)
        } else if y.0 == key {
            Some(y.1)
        } else if z.0 == key {
            Some(z.1)
        } else {
            None
        },
{
    lemma_member_two(x, y, key);
    lemma_member_push(seq![x, y], z, key);
    assert(seq![x, y].push(z) =~= seq![x, y, z]);
}

/// The members of an object with four members.
pub proof fn lemma_member_four(
    x: (Seq<char>, JsonView),
    y: (Seq<char>, JsonView),
    z: (Seq<char>, JsonView),
    w: (Seq<char>, JsonView),
    key: Seq<char>,
)
    ensures
        member(seq![x, y, z, w], key) == if x.0 == key {
            Some(x.1)
        } else if y.0 == key {
            Some(y.1)
        } else if z.0 == key {
            Some(z.1)
        } else if w.0 == key {
            Some(w.1)
        } else {
            None
        },
{
    lemma_member_three(x, y, z, key);
    lemma_member_push(seq![x, y, z], w, key);
    assert(seq![x, y, z].push(w) =~= seq![x, y, z, w]);
}

} // verus!
