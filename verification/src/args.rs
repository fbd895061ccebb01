//! Operator arguments, and the name-to-id resolution they need.
//!
//! A keybinding invokes an operator with no arguments — it acts on the live
//! selection. A plugin or a script has to say what it means, and cannot hold
//! an id: slotmap keys are not stable across sessions, and undo hands a
//! restored bone a new key. So arguments carry names and resolve at invoke
//! time, and a name that resolves to nothing is an error the caller sees.

use crate::ids::{AnimationId, BoneId, SlotId};
use vstd::prelude::*;

verus! {

/// A JSON value, as far as argument reading needs to see into it.
#[derive(Debug)]
pub enum JsonValue {
    Null,
    Bool(bool),
    /// A number, as the decimal text JSON wrote it.
    Number(String),
    String(String),
    Array(Vec<JsonValue>),
    /// Members in document order.
    Object(Vec<(String, JsonValue)>),
}

/// The kind of a JSON value, for error messages.
pub open spec fn kind_name(v: JsonValue) -> Seq<char> {
    match v {
        JsonValue::Null => "null"@,
        JsonValue::Bool(_) => "a boolean"@,
        JsonValue::Number(_) => "a number"@,
        JsonValue::String(_) => "a string"@,
        JsonValue::Array(_) => "an array"@,
        JsonValue::Object(_) => "an object"@,
    }
}

/// The value under `key` when `v` is an object whose first member named `key`
/// is not null; `None` otherwise.
pub open spec fn member(v: JsonValue, key: Seq<char>) -> Option<JsonValue> {
    match v {
        JsonValue::Object(members) => {
            if exists|i: int| 0 <= i < members.len() && (#[trigger] members[i]).0@ == key {
                let i = choose|i: int|
                    0 <= i < members.len() && (#[trigger] members[i]).0@ == key
                        && forall|j: int| 0 <= j < i ==> (#[trigger] members[j]).0@ != key;
                if members[i].1 is Null {
                    None
                } else {
                    Some(members[i].1)
                }
            } else {
                None
            }
        }
        _ => None,
    }
}

/// A JSON value's kind, for error messages.
fn type_of(v: &JsonValue) -> (name: &'static str)
    ensures
        name@ == kind_name(*v),
{
    match v {
        JsonValue::Null => "null",
        JsonValue::Bool(_) => "a boolean",
        JsonValue::Number(_) => "a number",
        JsonValue::String(_) => "a string",
        JsonValue::Array(_) => "an array",
        JsonValue::Object(_) => "an object",
    }
}

/// What went wrong reading an argument. Carries the argument's name in every
/// case.
#[derive(Debug, Clone, PartialEq)]
pub enum ArgError {
    /// The key is absent and the operator needs it.
    Missing(String),
    /// Present, but the wrong JSON type.
    WrongType { key: String, wanted: &'static str, got: &'static str },
    /// A well-formed name that resolves to nothing in this document.
    Unresolved { key: String, kind: &'static str, name: String },
}

/// The one-line message for an argument error.
pub open spec fn arg_error_message(e: ArgError) -> Seq<char> {
    match e {
        ArgError::Missing(key) => "missing argument `"@ + key@ + "`"@,
        ArgError::WrongType { key, wanted, got } => "`"@ + key@ + "` should be "@ + wanted@ + ", got "@ + got@,
        ArgError::Unresolved { key, kind, name } => "`"@ + key@ + "` names a "@ + kind@
            + " this rig does not have: `"@ + name@ + "`"@,
    }
}

impl ArgError {
    /// The message shown to the caller: which key, and what was wrong with it.
    pub fn message(&self) -> (m: String)
        ensures
            m@ == arg_error_message(*self),
    {
        let mut out = String::new();
        match self {
            ArgError::Missing(key) => {
                out.append("missing argument `");
                out.append(key.as_str());
                out.append("`");
            }
            ArgError::WrongType { key, wanted, got } => {
                out.append("`");
                out.append(key.as_str());
                out.append("` should be ");
                out.append(wanted);
                out.append(", got ");
                out.append(got);
            }
            ArgError::Unresolved { key, kind, name } => {
                out.append("`");
                out.append(key.as_str());
                out.append("` names a ");
                out.append(kind);
                out.append(" this rig does not have: `");
                out.append(name.as_str());
                out.append("`");
            }
        }
        proof {
            assert(out@ =~= arg_error_message(*self));
        }
        out
    }
}

/// What an operator was asked to do, before names become ids: a JSON object
/// with typed accessors.
#[derive(Debug)]
pub struct Args(pub JsonValue);

impl Default for Args {
    fn default() -> (a: Args)
        ensures
            a.json() is Null,
    {
        Args(JsonValue::Null)
    }
}

impl Args {
    /// The JSON the arguments were given as.
    pub open spec fn json(self) -> JsonValue {
        self.0
    }

    /// No arguments — what a keybinding passes.
    pub fn none() -> (a: Args)
        ensures
            a.json() is Null,
    {
        Args(JsonValue::Null)
    }

    pub fn from_json(value: JsonValue) -> (a: Args)
        ensures
            a.json() == value,
    {
        Args(value)
    }

    pub fn as_json(&self) -> (v: &JsonValue)
        ensures
            *v == self.json(),
    {
        &self.0
    }

    /// Is anything here at all? Null and an empty object both say no.
    pub fn is_empty(&self) -> (r: bool)
        ensures
            r == match self.json() {
                JsonValue::Null => true,
                JsonValue::Object(m) => m.len() == 0,
                _ => false,
            },
    {
        match &self.0 {
            JsonValue::Null => true,
            JsonValue::Object(members) => members.len() == 0,
            _ => false,
        }
    }

    /// The non-null value under `key`.
    fn get(&self, key: &str) -> (r: Option<&JsonValue>)
        ensures
            match member(self.json(), key@) {
                Some(v) => r matches Some(x) && *x == v,
                None => r is None,
            },
    {
        match &self.0 {
            JsonValue::Object(members) => {
                let k = key.to_owned();
                let mut i: usize = 0;
                while i < members.len()
                    invariant
                        i <= members.len(),
                        k@ == key@,
                        self.json() == JsonValue::Object(*members),
                        forall|j: int| 0 <= j < i ==> (#[trigger] members@[j]).0@ != key@,
                    decreases members.len() - i,
                {
                    if members[i].0 == k {
                        proof {
                            let ms = members@;
                            assert(ms[i as int].0@ == key@);
                            let c = choose|c: int|
                                0 <= c < ms.len() && (#[trigger] ms[c]).0@ == key@
                                    && forall|j: int| 0 <= j < c ==> (#[trigger] ms[j]).0@ != key@;
                            if c < i {
                                assert(ms[c].0@ != key@);
                            }
                            if i < c {
                                assert(ms[i as int].0@ != key@);
                            }
                        }
                        return match &members[i].1 {
                            JsonValue::Null => None,
                            v => Some(v),
                        };
                    }
                    i += 1;
                }
                None
            }
            _ => None,
        }
    }

    /// A required string.
    pub fn str(&self, key: &str) -> (r: Result<&str, ArgError>)
        ensures
            match member(self.json(), key@) {
                None => r matches Err(ArgError::Missing(k)) && k@ == key@,
                Some(JsonValue::String(s)) => r matches Ok(x) && x@ == s@,
                Some(v) => r matches Err(ArgError::WrongType { key: k, wanted, got })
                    && k@ == key@ && wanted@ == "a string"@ && got@ == kind_name(v),
            },
    {
        match self.get(key) {
            None => Err(ArgError::Missing(key.to_owned())),
            Some(JsonValue::String(s)) => Ok(s.as_str()),
            Some(v) => Err(ArgError::WrongType { key: key.to_owned(), wanted: "a string", got: type_of(v) }),
        }
    }
}



impl Args {
    /// A boolean, or `default` when absent. A value of the wrong type is still
    /// an error: absent is not the same as present-and-wrong.
    pub fn bool_or(&self, key: &str, default: bool) -> (r: Result<bool, ArgError>)
        ensures
            match member(self.json(), key@) {
                None => r == Ok::<bool, ArgError>(default),
                Some(JsonValue::Bool(b)) => r == Ok::<bool, ArgError>(b),
                Some(v) => r matches Err(ArgError::WrongType { key: k, wanted, got })
                    && k@ == key@ && wanted@ == "a boolean"@ && got@ == kind_name(v),
            },
    {
        match self.get(key) {
            None => Ok(default),
            Some(JsonValue::Bool(b)) => Ok(*b),
            Some(v) => Err(ArgError::WrongType { key: key.to_owned(), wanted: "a boolean", got: type_of(v) }),
        }
    }

    /// An optional string — absent and `null` both mean "not given".
    pub fn opt_str(&self, key: &str) -> (r: Result<Option<&str>, ArgError>)
        ensures
            match member(self.json(), key@) {
                None => r matches Ok(None),
                Some(JsonValue::String(s)) => r matches Ok(Some(x)) && x@ == s@,
                Some(v) => r matches Err(ArgError::WrongType { key: k, wanted, got })
                    && k@ == key@ && wanted@ == "a string"@ && got@ == kind_name(v),
            },
    {
        match self.get(key) {
            None => Ok(None),
            Some(JsonValue::String(s)) => Ok(Some(s.as_str())),
            Some(v) => Err(ArgError::WrongType { key: key.to_owned(), wanted: "a string", got: type_of(v) }),
        }
    }

    /// A required number, as the decimal text it was written in; turning it
    /// into a float is the caller's step.
    pub fn number_text(&self, key: &str) -> (r: Result<&str, ArgError>)
        ensures
            match member(self.json(), key@) {
                None => r matches Err(ArgError::Missing(k)) && k@ == key@,
                Some(JsonValue::Number(s)) => r matches Ok(x) && x@ == s@,
                Some(v) => r matches Err(ArgError::WrongType { key: k, wanted, got })
                    && k@ == key@ && wanted@ == "a number"@ && got@ == kind_name(v),
            },
    {
        match self.get(key) {
            None => Err(ArgError::Missing(key.to_owned())),
            Some(JsonValue::Number(s)) => Ok(s.as_str()),
            Some(v) => Err(ArgError::WrongType { key: key.to_owned(), wanted: "a number", got: type_of(v) }),
        }
    }

    /// A number's decimal text, or `None` when absent. A value of the wrong
    /// type is still an error.
    pub fn opt_number_text(&self, key: &str) -> (r: Result<Option<&str>, ArgError>)
        ensures
            match member(self.json(), key@) {
                None => r matches Ok(None),
                Some(JsonValue::Number(s)) => r matches Ok(Some(x)) && x@ == s@,
                Some(v) => r matches Err(ArgError::WrongType { key: k, wanted, got })
                    && k@ == key@ && wanted@ == "a number"@ && got@ == kind_name(v),
            },
    {
        match self.get(key) {
            None => Ok(None),
            Some(JsonValue::Number(s)) => Ok(Some(s.as_str())),
            Some(v) => Err(ArgError::WrongType { key: key.to_owned(), wanted: "a number", got: type_of(v) }),
        }
    }
}

/// `i` is the first entry whose name is `name`.
pub open spec fn is_first_named<T>(entries: Seq<(T, String)>, name: Seq<char>, i: int) -> bool {
    &&& 0 <= i < entries.len()
    &&& entries[i].1@ == name
    &&& forall|j: int| 0 <= j < i ==> (#[trigger] entries[j]).1@ != name
}

/// Some entry is named `name`.
pub open spec fn has_named<T>(entries: Seq<(T, String)>, name: Seq<char>) -> bool {
    exists|i: int| 0 <= i < entries.len() && (#[trigger] entries[i]).1@ == name
}

/// The id of the first entry named `name` (meaningful when `has_named`).
pub open spec fn first_named<T>(entries: Seq<(T, String)>, name: Seq<char>) -> T {
    entries[choose|i: int| is_first_named(entries, name, i)].0
}

/// What resolving the name under `key` gives: the first entry with that name,
/// or an `Unresolved` error naming the key, the kind and the name; an error
/// reading the name passes through unchanged.
pub open spec fn resolved<T>(
    read: Result<&str, ArgError>,
    entries: Seq<(T, String)>,
    key: Seq<char>,
    kind: Seq<char>,
    r: Result<T, ArgError>,
) -> bool {
    match read {
        Err(e) => r == Err::<T, ArgError>(e),
        Ok(name) => if has_named(entries, name@) {
            r == Ok::<T, ArgError>(first_named(entries, name@))
        } else {
            r matches Err(ArgError::Unresolved { key: k, kind: kd, name: n }) && k@ == key && kd@ == kind
                && n@ == name@
        },
    }
}

/// The first entry named `name`.
fn find_named<T: Copy>(entries: &Vec<(T, String)>, name: &str) -> (r: Option<T>)
    ensures
        r is None <==> !has_named(entries@, name@),
        r matches Some(id) ==> id == first_named(entries@, name@),
{
    let n = name.to_owned();
    let mut i: usize = 0;
    while i < entries.len()
        invariant
            i <= entries.len(),
            n@ == name@,
            forall|j: int| 0 <= j < i ==> (#[trigger] entries@[j]).1@ != name@,
        decreases entries.len() - i,
    {
        if entries[i].1 == n {
            proof {
                let es = entries@;
                assert(is_first_named(es, name@, i as int));
                let c = choose|c: int| is_first_named(es, name@, c);
                if c < i {
                    assert(es[c].1@ != name@);
                }
                if i < c {
                    assert(es[i as int].1@ != name@);
                }
            }
            return Some(entries[i].0);
        }
        i += 1;
    }
    None
}

/// Resolve the name under `key` against `entries`.
fn resolve<T: Copy>(entries: &Vec<(T, String)>, args: &Args, key: &str, kind: &'static str) -> (r: Result<T, ArgError>)
    ensures
        exists|read: Result<&str, ArgError>|
            #![trigger resolved(read, entries@, key@, kind@, r)]
            {
                &&& match member(args.json(), key@) {
                    None => read matches Err(ArgError::Missing(k)) && k@ == key@,
                    Some(JsonValue::String(s)) => read matches Ok(x) && x@ == s@,
                    Some(v) => read matches Err(ArgError::WrongType { key: k, wanted, got })
                        && k@ == key@ && wanted@ == "a string"@ && got@ == kind_name(v),
                }
                &&& resolved(read, entries@, key@, kind@, r)
            },
{
    let read = args.str(key);
    let ghost g = read;
    let r = match read {
        Err(e) => Err(e),
        Ok(name) => match find_named(entries, name) {
            Some(id) => Ok(id),
            None => Err(ArgError::Unresolved { key: key.to_owned(), kind, name: name.to_owned() }),
        },
    };
    assert(resolved(g, entries@, key@, kind@, r));
    r
}

/// Resolves the names in [`Args`] against the names a document holds.
///
/// Built from `(id, name)` lists so the argument type stays free of the
/// document, and so a script's shape can be checked before a rig is open.
pub struct Resolver {
    pub bones: Vec<(BoneId, String)>,
    pub slots: Vec<(SlotId, String)>,
    pub animations: Vec<(AnimationId, String)>,
}

impl Resolver {
    pub fn new(
        bones: Vec<(BoneId, String)>,
        slots: Vec<(SlotId, String)>,
        animations: Vec<(AnimationId, String)>,
    ) -> (r: Resolver)
        ensures
            r.bones@ == bones@,
            r.slots@ == slots@,
            r.animations@ == animations@,
    {
        Resolver { bones, slots, animations }
    }

    /// The bone named by the string under `key`.
    pub fn bone(&self, args: &Args, key: &str) -> (r: Result<BoneId, ArgError>)
        ensures
            exists|read: Result<&str, ArgError>|
                #![trigger resolved(read, self.bones@, key@, "bone"@, r)]
                {
                    &&& match member(args.json(), key@) {
                        None => read matches Err(ArgError::Missing(k)) && k@ == key@,
                        Some(JsonValue::String(s)) => read matches Ok(x) && x@ == s@,
                        Some(v) => read matches Err(ArgError::WrongType { key: k, wanted, got })
                            && k@ == key@ && wanted@ == "a string"@ && got@ == kind_name(v),
                    }
                    &&& resolved(read, self.bones@, key@, "bone"@, r)
                },
    {
        proof { reveal_strlit("bone"); }
        resolve(&self.bones, args, key, "bone")
    }

    /// A bone argument that may be absent — for `parent`, where "no parent" is
    /// a real answer. Naming a bone the rig lacks is still an error.
    pub fn opt_bone(&self, args: &Args, key: &str) -> (r: Result<Option<BoneId>, ArgError>)
        ensures
            match member(args.json(), key@) {
                None => r matches Ok(None),
                Some(JsonValue::String(s)) => if has_named(self.bones@, s@) {
                    r == Ok::<Option<BoneId>, ArgError>(Some(first_named(self.bones@, s@)))
                } else {
                    r matches Err(ArgError::Unresolved { key: k, kind, name }) && k@ == key@ && kind@ == "bone"@
                        && name@ == s@
                },
                Some(v) => r matches Err(ArgError::WrongType { key: k, wanted, got })
                    && k@ == key@ && wanted@ == "a string"@ && got@ == kind_name(v),
            },
    {
        match args.opt_str(key) {
            Err(e) => Err(e),
            Ok(None) => Ok(None),
            Ok(Some(_)) => match self.bone(args, key) {
                Ok(id) => Ok(Some(id)),
                Err(e) => Err(e),
            },
        }
    }

    /// The slot named by the string under `key`.
    pub fn slot(&self, args: &Args, key: &str) -> (r: Result<SlotId, ArgError>)
        ensures
            exists|read: Result<&str, ArgError>|
                #![trigger resolved(read, self.slots@, key@, "slot"@, r)]
                {
                    &&& match member(args.json(), key@) {
                        None => read matches Err(ArgError::Missing(k)) && k@ == key@,
                        Some(JsonValue::String(s)) => read matches Ok(x) && x@ == s@,
                        Some(v) => read matches Err(ArgError::WrongType { key: k, wanted, got })
                            && k@ == key@ && wanted@ == "a string"@ && got@ == kind_name(v),
                    }
                    &&& resolved(read, self.slots@, key@, "slot"@, r)
                },
    {
        proof { reveal_strlit("slot"); }
        resolve(&self.slots, args, key, "slot")
    }

    /// The animation named by the string under `key`.
    pub fn animation(&self, args: &Args, key: &str) -> (r: Result<AnimationId, ArgError>)
        ensures
            exists|read: Result<&str, ArgError>|
                #![trigger resolved(read, self.animations@, key@, "animation"@, r)]
                {
                    &&& match member(args.json(), key@) {
                        None => read matches Err(ArgError::Missing(k)) && k@ == key@,
                        Some(JsonValue::String(s)) => read matches Ok(x) && x@ == s@,
                        Some(v) => read matches Err(ArgError::WrongType { key: k, wanted, got })
                            && k@ == key@ && wanted@ == "a string"@ && got@ == kind_name(v),
                    }
                    &&& resolved(read, self.animations@, key@, "animation"@, r)
                },
    {
        proof { reveal_strlit("animation"); }
        resolve(&self.animations, args, key, "animation")
    }
}

} // verus!
