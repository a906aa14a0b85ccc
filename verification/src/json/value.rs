//! JSON values, as data and as their mathematical model.

use vstd::prelude::*;

verus! {

/// A parsed JSON value.
///
/// Object members are kept in the order in which they were written, duplicates
/// included. A number keeps its value only when it is written as a plain
/// unsigned integer that fits 64 bits; any other numeral is a number without
/// a value.
#[derive(Debug, PartialEq, Eq)]
pub enum Json {
    Null,
    Flag(bool),
    Number(Option<u64>),
    Text(String),
    List(Vec<Json>),
    Record(Vec<(String, Json)>),
}

/// The mathematical model of a [`Json`] value.
pub ghost enum JsonModel {
    Null,
    Flag(bool),
    Number(Option<u64>),
    Text(Seq<char>),
    List(Seq<JsonModel>),
    Record(Seq<(Seq<char>, JsonModel)>),
}

impl Json {
    /// The model of this value.
    pub open spec fn view(&self) -> JsonModel
        decreases self,
    {
        match self {
            Json::Null => JsonModel::Null,
            Json::Flag(b) => JsonModel::Flag(*b),
            Json::Number(n) => JsonModel::Number(*n),
            Json::Text(t) => JsonModel::Text(t@),
            Json::List(items) => JsonModel::List(
                Seq::new(
                    items@.len(),
                    |i: int|
                        if 0 <= i < items@.len() {
                            items@[i].view()
                        } else {
                            JsonModel::Null
                        },
                ),
            ),
            Json::Record(members) => JsonModel::Record(
                Seq::new(
                    members@.len(),
                    |i: int|
                        if 0 <= i < members@.len() {
                            (members@[i].0@, members@[i].1.view())
                        } else {
                            (Seq::empty(), JsonModel::Null)
                        },
                ),
            ),
        }
    }
}

/// The models of a sequence of values, element by element.
pub open spec fn list_view(items: Seq<Json>) -> Seq<JsonModel> {
    Seq::new(items.len(), |i: int| items[i].view())
}

/// The models of a sequence of object members, element by element.
pub open spec fn record_view(members: Seq<(String, Json)>) -> Seq<(Seq<char>, JsonModel)> {
    Seq::new(members.len(), |i: int| (members[i].0@, members[i].1.view()))
}

/// The model of a list is the list of its elements' models.
pub proof fn lemma_list_view(items: Vec<Json>)
    ensures
        Json::List(items).view() == JsonModel::List(list_view(items@)),
{
    assert(Json::List(items).view()->List_0 =~= list_view(items@));
}

/// The model of an object is the list of its members' models.
pub proof fn lemma_record_view(members: Vec<(String, Json)>)
    ensures
        Json::Record(members).view() == JsonModel::Record(record_view(members@)),
{
    assert(Json::Record(members).view()->Record_0 =~= record_view(members@));
}

} // verus!
