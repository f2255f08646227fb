//! JSON results as far as a dotted path reads them: each value with the text
//! that stands for it, and the members of an object.

use crate::text::{chars_of, same_chars, views};
use vstd::prelude::*;

verus! {

/// One member of a JSON object.
pub struct JsonMember {
    pub key: String,
    pub value: JsonValue,
}

/// A JSON value. `string` holds the characters of the value where it is a
/// string, `json` the compact JSON text of the value, whatever it is.
/// `members` are the members of an object, and empty for any other value.
pub struct JsonValue {
    pub string: Option<String>,
    pub json: String,
    pub members: Vec<JsonMember>,
}

/// What a `JsonValue` holds, as characters.
pub struct JsonView {
    pub string: Option<Seq<char>>,
    pub json: Seq<char>,
    pub members: Seq<(Seq<char>, JsonView)>,
}

/// What stands for a value where it is put into a template: the characters
/// of a string, the JSON text of anything else.
pub open spec fn template_text(v: JsonView) -> Seq<char> {
    match v.string {
        Some(characters) => characters,
        None => v.json,
    }
}

impl JsonValue {
    /// What this value holds, as characters.
    pub open spec fn view(&self) -> JsonView
        decreases self,
    {
        JsonView {
            string: match self.string {
                Some(characters) => Some(characters@),
                None => None,
            },
            json: self.json@,
            members: Seq::new(
                self.members.len() as nat,
                |i: int|
                    if 0 <= i < self.members.len() {
                        (self.members[i].key@, self.members[i].value.view())
                    } else {
                        (
                            Seq::empty(),
                            JsonView { string: None, json: Seq::empty(), members: Seq::empty() },
                        )
                    },
            ),
        }
    }
}

/// The first index at or after `from` of a member whose key reads `key`, or
/// the number of members where there is none.
pub open spec fn member_position(
    members: Seq<(Seq<char>, JsonView)>,
    key: Seq<char>,
    from: int,
) -> int
    decreases members.len() - from,
{
    if from < 0 || from >= members.len() {
        members.len() as int
    } else if members[from].0 == key {
        from
    } else {
        member_position(members, key, from + 1)
    }
}

/// `member_position` is the least index from `from` on with that key.
pub proof fn lemma_member_position(
    members: Seq<(Seq<char>, JsonView)>,
    key: Seq<char>,
    from: int,
    k: int,
)
    requires
        0 <= from <= k <= members.len(),
        forall|j: int| from <= j < k ==> members[j].0 != key,
        k == members.len() || members[k].0 == key,
    ensures
        member_position(members, key, from) == k,
    decreases k - from,
{
    if from < k {
        lemma_member_position(members, key, from + 1, k);
    }
}

/// The member of `v` named `key`, if `v` is an object that has one.
pub open spec fn member_of(v: JsonView, key: Seq<char>) -> Option<JsonView> {
    let i = member_position(v.members, key, 0);
    if 0 <= i < v.members.len() {
        Some(v.members[i].1)
    } else {
        None
    }
}

/// The value that `path` leads to from `v`: each segment names a member of
/// the object reached so far. `None` where a segment names none.
pub open spec fn at_path(v: JsonView, path: Seq<Seq<char>>) -> Option<JsonView>
    decreases path.len(),
{
    if path.len() == 0 {
        Some(v)
    } else {
        match member_of(v, path[0]) {
            Some(inner) => at_path(inner, path.skip(1)),
            None => None,
        }
    }
}

impl JsonValue {
    /// What stands for this value where it is put into a template.
    pub fn text(&self) -> (r: String)
        ensures
            r@ == template_text(self@),
    {
        match &self.string {
            Some(characters) => characters.clone(),
            None => self.json.clone(),
        }
    }

    /// The member named `key`, if this is an object that has one.
    pub fn member(&self, key: &Vec<char>) -> (r: Option<&JsonValue>)
        ensures
            match r {
                Some(v) => member_of(self@, key@) == Some(v@),
                None => member_of(self@, key@) is None,
            },
    {
        let mut i: usize = 0;
        while i < self.members.len()
            invariant
                i <= self.members.len(),
                forall|j: int| 0 <= j < i ==> self@.members[j].0 != key@,
            decreases self.members.len() - i,
        {
            let name = chars_of(self.members[i].key.as_str());
            if same_chars(&name, key) {
                proof {
                    assert(self@.members[i as int].0 == key@);
                    lemma_member_position(self@.members, key@, 0, i as int);
                }
                return Some(&self.members[i].value);
            }
            assert(self@.members[i as int].0 != key@);
            i = i + 1;
        }
        proof {
            lemma_member_position(self@.members, key@, 0, i as int);
        }
        None
    }

    /// The value that `path` leads to, if every segment names a member.
    pub fn navigate(&self, path: &Vec<Vec<char>>) -> (r: Option<&JsonValue>)
        ensures
            match r {
                Some(v) => at_path(self@, views(path@)) == Some(v@),
                None => at_path(self@, views(path@)) is None,
            },
    {
        let mut current: &JsonValue = self;
        let mut i: usize = 0;
        assert(views(path@).skip(0) == views(path@));
        while i < path.len()
            invariant
                i <= path.len(),
                at_path(self@, views(path@)) == at_path(current@, views(path@).skip(i as int)),
            decreases path.len() - i,
        {
            let ghost rest = views(path@).skip(i as int);
            assert(rest[0] == path@[i as int]@);
            assert(rest.skip(1) == views(path@).skip(i + 1));
            match current.member(&path[i]) {
                Some(inner) => {
                    current = inner;
                },
                None => {
                    return None;
                },
            }
            i = i + 1;
        }
        Some(current)
    }
}

/// A JSON document as the JSON library holds it.
#[verifier::external_type_specification]
#[verifier::external_body]
pub struct ExJsonTree(serde_json::Value);

/// Why the JSON library refuses a text.
#[verifier::external_type_specification]
#[verifier::external_body]
pub struct ExJsonError(serde_json::Error);

/// What a document of the JSON library holds: for each value the
/// characters of a string, the compact JSON text that the library writes
/// for the value, and the members of an object in the order in which the
/// library walks them.
pub uninterp spec fn json_tree(tree: serde_json::Value) -> JsonView;

/// What the JSON library reads from `text`: `None` where the text is no
/// JSON document.
pub uninterp spec fn json_parsed(text: Seq<char>) -> Option<JsonView>;

/// Reads `text` as a JSON document.
///
/// Trusted: stands for `serde_json::from_str` at the type
/// `serde_json::Value`. The contract only gives the result its name: the
/// same text always reads as the same document, or always as none.
#[verifier::external_body]
fn read_json(text: &str) -> (r: Result<serde_json::Value, serde_json::Error>)
    ensures
        match r {
            Ok(tree) => json_parsed(text@) == Some(json_tree(tree)),
            Err(_) => json_parsed(text@) is None,
        },
{
    serde_json::from_str::<serde_json::Value>(text)
}

/// Copies a document of the JSON library into a `JsonValue`.
///
/// Trusted: it tells the variants of `serde_json::Value` apart. `string`
/// is taken from the variant `String`, `json` is what `Value::to_string`
/// writes, and the members are those of `Map::iter`, each copied in the
/// same way. The contract says that the copy holds what the document holds.
#[verifier::external_body]
fn json_from_value(tree: &serde_json::Value) -> (r: JsonValue)
    ensures
        r@ == json_tree(*tree),
{
    let string = match tree {
        serde_json::Value::String(s) => Some(s.clone()),
        _ => None,
    };
    let json = tree.to_string();
    let members = match tree {
        serde_json::Value::Object(map) => map.iter().map(
            |(k, v)| JsonMember { key: k.clone(), value: json_from_value(v) },
        ).collect(),
        _ => Vec::new(),
    };
    JsonValue { string, json, members }
}

/// Reads `text` as a JSON document: `None` where it is none.
pub fn parse_json(text: &str) -> (r: Option<JsonValue>)
    ensures
        match r {
            Some(v) => json_parsed(text@) == Some(v@),
            None => json_parsed(text@) is None,
        },
{
    match read_json(text) {
        Ok(tree) => Some(json_from_value(&tree)),
        Err(_) => None,
    }
}

} // verus!
