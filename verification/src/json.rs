use vstd::prelude::*;

verus! {

/// A decoded JSON document: a tree of objects, arrays and scalars.
///
/// Object members keep their document order. A number that is a non-negative
/// integer within 64 bits is `Unsigned`; any other number is `Number`.
#[derive(Debug)]
pub enum Json {
    Null,
    Bool(bool),
    Unsigned(u64),
    Number,
    Text(String),
    Array(Vec<Json>),
    Object(Vec<(String, Json)>),
}

/// The position of the first member at or after `from` whose key is `key`.
pub open spec fn index_of_key(members: Seq<(String, Json)>, key: Seq<char>, from: int) -> Option<int>
    decreases members.len() - from,
{
    if from < 0 || from >= members.len() {
        None
    } else if members[from].0@ == key {
        Some(from)
    } else {
        index_of_key(members, key, from + 1)
    }
}

/// The text found under `key` in `node`, if `node` is an object that holds a
/// string there.
pub open spec fn text_field(node: Json, key: Seq<char>) -> Option<Seq<char>> {
    match node.field(key) {
        Some(j) => j.text(),
        None => None,
    }
}

/// The unsigned integer found under `key` in `node`, if `node` is an object
/// that holds one there.
pub open spec fn unsigned_field(node: Json, key: Seq<char>) -> Option<u64> {
    match node.field(key) {
        Some(j) => j.unsigned(),
        None => None,
    }
}

/// Whether two strings hold the same characters.
pub fn same_text(a: &str, b: &str) -> (r: bool)
    ensures
        r == (a@ == b@),
{
    let left = a.to_owned();
    let right = b.to_owned();
    left == right
}

impl Json {
    /// The value of the first member named `key`, for an object; nothing for
    /// any other node.
    pub open spec fn field(self, key: Seq<char>) -> Option<Json> {
        match self {
            Json::Object(members) => match index_of_key(members@, key, 0) {
                Some(i) => Some(members@[i].1),
                None => None,
            },
            _ => None,
        }
    }

    /// The characters of a string node.
    pub open spec fn text(self) -> Option<Seq<char>> {
        match self {
            Json::Text(s) => Some(s@),
            _ => None,
        }
    }

    /// The value of an unsigned integer node.
    pub open spec fn unsigned(self) -> Option<u64> {
        match self {
            Json::Unsigned(n) => Some(n),
            _ => None,
        }
    }

    /// Looks up a member of an object by its key.
    pub fn get(&self, key: &str) -> (r: Option<&Json>)
        ensures
            r is Some <==> self.field(key@) is Some,
            r matches Some(j) ==> self.field(key@) == Some(*j),
    {
        match self {
            Json::Object(members) => {
                let mut i: usize = 0;
                while i < members.len()
                    invariant
                        0 <= i <= members.len(),
                        *self == Json::Object(*members),
                        index_of_key(members@, key@, 0) == index_of_key(members@, key@, i as int),
                    decreases members.len() - i,
                {
                    if same_text(members[i].0.as_str(), key) {
                        return Some(&members[i].1);
                    }
                    i += 1;
                }
                None
            },
            _ => None,
        }
    }

    /// The string held by a string node.
    pub fn as_str(&self) -> (r: Option<&str>)
        ensures
            r is Some <==> self.text() is Some,
            r matches Some(s) ==> self.text() == Some(s@),
    {
        match self {
            Json::Text(s) => Some(s.as_str()),
            _ => None,
        }
    }

    /// The integer held by an unsigned integer node.
    pub fn as_u64(&self) -> (r: Option<u64>)
        ensures
            r == self.unsigned(),
    {
        match self {
            Json::Unsigned(n) => Some(*n),
            _ => None,
        }
    }

    /// The string under `key`, if this is an object with a string there.
    pub fn get_str(&self, key: &str) -> (r: Option<&str>)
        ensures
            r is Some <==> text_field(*self, key@) is Some,
            r matches Some(s) ==> text_field(*self, key@) == Some(s@),
    {
        match self.get(key) {
            Some(j) => j.as_str(),
            None => None,
        }
    }

    /// The unsigned integer under `key`, if this is an object with one there.
    pub fn get_u64(&self, key: &str) -> (r: Option<u64>)
        ensures
            r == unsigned_field(*self, key@),
    {
        match self.get(key) {
            Some(j) => j.as_u64(),
            None => None,
        }
    }
}

} // verus!
