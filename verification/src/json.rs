//! JSON values as trees, and the lookups the document reader needs.
use crate::text::same_text;
use vstd::prelude::*;

verus! {

/// A JSON value. Numbers keep their decimal text; objects keep their members in
/// document order.
#[derive(Debug, PartialEq, Eq)]
pub enum Json {
    Null,
    Bool(bool),
    Number(String),
    Text(String),
    Array(Vec<Json>),
    Object(Vec<(String, Json)>),
}

/// The mathematical value of a [`Json`] tree.
pub enum JsonModel {
    Null,
    Bool(bool),
    Number(Seq<char>),
    Text(Seq<char>),
    Array(Seq<JsonModel>),
    Object(Seq<(Seq<char>, JsonModel)>),
}

/// The value of `json`.
pub open spec fn json_model(json: Json) -> JsonModel
    decreases json, 0nat,
{
    match json {
        Json::Null => JsonModel::Null,
        Json::Bool(b) => JsonModel::Bool(b),
        Json::Number(n) => JsonModel::Number(n@),
        Json::Text(t) => JsonModel::Text(t@),
        Json::Array(items) => JsonModel::Array(items_model(items, items.len() as nat)),
        Json::Object(members) => JsonModel::Object(members_model(members, members.len() as nat)),
    }
}

/// The values of the first `upto` of `items`.
pub open spec fn items_model(items: Vec<Json>, upto: nat) -> Seq<JsonModel>
    decreases items, upto,
{
    if upto == 0 || upto > items.len() {
        Seq::empty()
    } else {
        items_model(items, (upto - 1) as nat).push(json_model(items[upto - 1]))
    }
}

/// The values of the first `upto` of `members`, each under its name.
pub open spec fn members_model(members: Vec<(String, Json)>, upto: nat) -> Seq<
    (Seq<char>, JsonModel),
>
    decreases members, upto,
{
    if upto == 0 || upto > members.len() {
        Seq::empty()
    } else {
        members_model(members, (upto - 1) as nat).push(
            (members[upto - 1].0@, json_model(members[upto - 1].1)),
        )
    }
}

impl DeepView for Json {
    type V = JsonModel;

    open spec fn deep_view(&self) -> JsonModel {
        json_model(*self)
    }
}

/// The value of the first member named `key`, from position `from` on.
pub open spec fn member_from(members: Seq<(Seq<char>, JsonModel)>, key: Seq<char>, from: int)
    -> Option<JsonModel>
    decreases members.len() - from,
{
    if from < 0 || from >= members.len() {
        None
    } else if members[from].0 == key {
        Some(members[from].1)
    } else {
        member_from(members, key, from + 1)
    }
}

impl JsonModel {
    /// The value of the first member named `key`, if this is an object that
    /// has one.
    pub open spec fn member(self, key: Seq<char>) -> Option<JsonModel> {
        match self {
            JsonModel::Object(members) => member_from(members, key, 0),
            _ => None,
        }
    }
}

proof fn lemma_member_from_smaller(
    json: JsonModel,
    members: Seq<(Seq<char>, JsonModel)>,
    key: Seq<char>,
    from: int,
)
    requires
        json == JsonModel::Object(members),
    ensures
        member_from(members, key, from) matches Some(value) ==> decreases_to!(json => value),
    decreases members.len() - from,
{
    if 0 <= from < members.len() {
        if members[from].0 == key {
            assert(decreases_to!(json => json->Object_0));
            assert(decreases_to!(json->Object_0 => json->Object_0[from]));
            assert(decreases_to!(json->Object_0[from] => json->Object_0[from].1));
        } else {
            lemma_member_from_smaller(json, members, key, from + 1);
        }
    }
}

/// A member of an object is a smaller value than the object.
pub proof fn lemma_member_smaller(json: JsonModel, key: Seq<char>)
    ensures
        json.member(key) matches Some(value) ==> decreases_to!(json => value),
{
    if let JsonModel::Object(members) = json {
        lemma_member_from_smaller(json, members, key, 0);
    }
}

proof fn lemma_items_model(items: Vec<Json>, upto: nat)
    requires
        upto <= items.len(),
    ensures
        items_model(items, upto) == items.deep_view().take(upto as int),
    decreases upto,
{
    if upto > 0 {
        lemma_items_model(items, (upto - 1) as nat);
    }
    assert(items_model(items, upto) =~= items.deep_view().take(upto as int));
}

proof fn lemma_members_model(members: Vec<(String, Json)>, upto: nat)
    requires
        upto <= members.len(),
    ensures
        members_model(members, upto) == members.deep_view().take(upto as int),
    decreases upto,
{
    if upto > 0 {
        lemma_members_model(members, (upto - 1) as nat);
    }
    assert(members_model(members, upto) =~= members.deep_view().take(upto as int));
}

/// The value of an array and of an object, stated over the values of their
/// parts.
pub proof fn lemma_json_view(json: Json)
    ensures
        json matches Json::Array(items) ==> json.deep_view() == JsonModel::Array(items.deep_view()),
        json matches Json::Object(members) ==> json.deep_view() == JsonModel::Object(
            members.deep_view(),
        ),
{
    match json {
        Json::Array(items) => {
            lemma_items_model(items, items.len() as nat);
            assert(items.deep_view().take(items.len() as int) =~= items.deep_view());
        },
        Json::Object(members) => {
            lemma_members_model(members, members.len() as nat);
            assert(members.deep_view().take(members.len() as int) =~= members.deep_view());
        },
        _ => {},
    }
}

impl Json {
    /// Looks up the first member named `key`; `None` if `self` is no object or
    /// has no such member.
    pub fn get(&self, key: &str) -> (found: Option<&Json>)
        ensures
            found.deep_view() == self.deep_view().member(key@),
            found matches Some(value) ==> decreases_to!(self => value),
    {
        match self {
            Json::Object(members) => {
                proof {
                    lemma_json_view(*self);
                }
                let ghost model = members.deep_view();
                let mut i: usize = 0;
                while i < members.len()
                    invariant
                        i <= members.len(),
                        model == members.deep_view(),
                        self.deep_view() == JsonModel::Object(model),
                        *self == Json::Object(*members),
                        member_from(model, key@, 0) == member_from(model, key@, i as int),
                    decreases members.len() - i,
                {
                    assert(model[i as int] == (
                        members[i as int].0@,
                        members[i as int].1.deep_view(),
                    ));
                    if same_text(members[i].0.as_str(), key) {
                        proof {
                            vstd::std_specs::vec::axiom_vec_index_decreases(*members, i as int);
                            assert(decreases_to!(self => self->Object_0));
                            assert(decreases_to!(*members => members[i as int]));
                            assert(decreases_to!(members[i as int] => members[i as int].1));
                        }
                        return Some(&members[i].1);
                    }
                    i += 1;
                }
                None
            },
            _ => None,
        }
    }

    /// A copy of this value.
    pub fn duplicate(&self) -> (copy: Json)
        ensures
            copy.deep_view() == self.deep_view(),
        decreases self,
    {
        match self {
            Json::Null => Json::Null,
            Json::Bool(b) => Json::Bool(*b),
            Json::Number(n) => Json::Number(n.clone()),
            Json::Text(t) => Json::Text(t.clone()),
            Json::Array(items) => {
                let mut copies: Vec<Json> = Vec::new();
                let mut i: usize = 0;
                while i < items.len()
                    invariant
                        i <= items.len(),
                        *self == Json::Array(*items),
                        copies.deep_view() =~= items.deep_view().take(i as int),
                    decreases items.len() - i,
                {
                    proof {
                        vstd::std_specs::vec::axiom_vec_index_decreases(*items, i as int);
                        assert(decreases_to!(self => self->Array_0));
                        assert(decreases_to!(*items => items[i as int]));
                    }
                    let ghost before = copies.deep_view();
                    let item = items[i].duplicate();
                    copies.push(item);
                    assert(copies.deep_view() =~= before.push(item.deep_view()));
                    i += 1;
                }
                proof {
                    lemma_json_view(*self);
                    lemma_json_view(Json::Array(copies));
                    assert(items.deep_view().take(items.len() as int) =~= items.deep_view());
                }
                Json::Array(copies)
            },
            Json::Object(members) => {
                let mut copies: Vec<(String, Json)> = Vec::new();
                let mut i: usize = 0;
                while i < members.len()
                    invariant
                        i <= members.len(),
                        *self == Json::Object(*members),
                        copies.deep_view() =~= members.deep_view().take(i as int),
                    decreases members.len() - i,
                {
                    proof {
                        vstd::std_specs::vec::axiom_vec_index_decreases(*members, i as int);
                        assert(decreases_to!(self => self->Object_0));
                        assert(decreases_to!(*members => members[i as int]));
                        assert(decreases_to!(members[i as int] => members[i as int].1));
                    }
                    let ghost before = copies.deep_view();
                    let member = (members[i].0.clone(), members[i].1.duplicate());
                    copies.push(member);
                    assert(copies.deep_view() =~= before.push(member.deep_view()));
                    i += 1;
                }
                proof {
                    lemma_json_view(*self);
                    lemma_json_view(Json::Object(copies));
                    assert(members.deep_view().take(members.len() as int) =~= members.deep_view());
                }
                Json::Object(copies)
            },
        }
    }
}

} // verus!
