//! Structured activity content carried by plaintext payloads.
//!
//! The chain core treats this content opaquely: it only needs a
//! deterministic canonical byte form for hashing (see `codec`).

use vstd::prelude::*;

verus! {

/// Holds zero, one or many objects.
#[derive(PartialEq, Eq, Debug)]
pub enum Ztm<T> {
    /// No object found, the default.
    Zero,
    /// Exactly one object.
    One(T),
    /// Many objects.
    Many(Vec<T>),
}

impl<T> Default for Ztm<T> {
    fn default() -> (r: Ztm<T>)
        ensures
            r is Zero,
    {
        Ztm::Zero
    }
}

/// True iff the value holds no object at all: either the `None`
/// variant or a `Many` with an empty list.
pub fn is_empty<T>(i: &Ztm<T>) -> (r: bool)
    ensures
        r == (i is Zero || (i is Many && i->Many_0@.len() == 0)),
{
    match *i {
        Ztm::Zero => true,
        Ztm::Many(ref v) => v.len() == 0,
        _ => false,
    }
}

/// A link given with structured detail.
#[derive(PartialEq, Eq, Structural, Debug)]
pub struct LinkDetails {
}

/// A reference to another entity, detailed or as a raw string.
#[derive(PartialEq, Eq, Debug)]
pub enum Link {
    Detailed(LinkDetails),
    Raw(String),
}

/// A context given with structured detail.
#[derive(PartialEq, Eq, Structural, Debug)]
pub struct ContextDetails {
}

/// The context an entity was stated in.
#[derive(PartialEq, Eq, Debug)]
pub enum Context {
    Detailed(ContextDetails),
    Link(Link),
    Raw(String),
}

/// The attributes every plain object carries.
#[derive(PartialEq, Eq, Debug)]
pub struct AsObject {
    pub name: Option<String>,
    pub id: Option<String>,
    pub context: Ztm<Box<Context>>,
    pub attachment: Ztm<Box<Object>>,
    pub attributed_to: Ztm<Box<Object>>,
    /// Extra attributes, kept as an ordered list so that the canonical
    /// byte form never depends on a map's iteration order.
    pub extra: Vec<(String, String)>,
}

/// The attributes of an activity: an object plus the activity roles.
#[derive(PartialEq, Eq, Debug)]
pub struct AsActivity {
    pub base: AsObject,
    pub actor: Ztm<Actor>,
    pub object: Ztm<Object>,
    pub target: Ztm<Object>,
    pub instrument: Ztm<Object>,
    pub result: Ztm<Object>,
    pub origin: Ztm<Object>,
}

/// Someone or something that acts.
#[derive(PartialEq, Eq, Debug)]
pub enum Actor {
    Application(AsObject),
    Group(AsObject),
    Organization(AsObject),
    Person(AsObject),
    Service(AsObject),
    Link(Link),
}

/// A thing that is acted upon.
#[derive(PartialEq, Eq, Debug)]
pub enum Object {
    Post(AsObject),
    Link(Link),
}

/// An action taken by an actor on an object.
#[derive(PartialEq, Eq, Debug)]
pub enum Activity {
    Create(AsActivity),
    Add(AsActivity),
    Remove(AsActivity),
}

/// Any entity a plaintext payload may carry.
#[derive(PartialEq, Eq, Debug)]
pub enum ActivityStreamEntity {
    Actor(Actor),
    Object(Object),
    Activity(Activity),
    Link(Link),
    Raw(String),
}

impl AsObject {
    /// An object with the given name and id and nothing else.
    pub fn new(id: Option<String>, name: Option<String>) -> (r: AsObject)
        ensures
            r.name == name,
            r.id == id,
            r.context is Zero,
            r.attachment is Zero,
            r.attributed_to is Zero,
            r.extra@.len() == 0,
    {
        AsObject {
            name,
            id,
            context: Ztm::Zero,
            attachment: Ztm::Zero,
            attributed_to: Ztm::Zero,
            extra: Vec::new(),
        }
    }
}

impl AsActivity {
    /// An activity with the given roles and an otherwise empty object.
    pub fn new(
        id: Option<String>,
        name: Option<String>,
        actor: Ztm<Actor>,
        object: Ztm<Object>,
    ) -> (r: AsActivity)
        ensures
            r.base.name == name,
            r.base.id == id,
            r.actor == actor,
            r.object == object,
            r.target is Zero,
            r.instrument is Zero,
            r.result is Zero,
            r.origin is Zero,
    {
        AsActivity {
            base: AsObject::new(id, name),
            actor,
            object,
            target: Ztm::Zero,
            instrument: Ztm::Zero,
            result: Ztm::Zero,
            origin: Ztm::Zero,
        }
    }

    /// An activity recorded by an actor alone.
    pub fn by_actor(a: Actor) -> (r: AsActivity)
        ensures
            r.actor == Ztm::One(a),
            r.object is Zero,
    {
        AsActivity::new(None, None, Ztm::One(a), Ztm::Zero)
    }

    /// An activity on an object without a recorded actor.
    pub fn with_object(o: Object) -> (r: AsActivity)
        ensures
            r.actor is Zero,
            r.object == Ztm::One(o),
    {
        AsActivity::new(None, None, Ztm::Zero, Ztm::One(o))
    }

    /// An activity by an actor on an object.
    pub fn by_actor_with_object(a: Actor, o: Object) -> (r: AsActivity)
        ensures
            r.actor == Ztm::One(a),
            r.object == Ztm::One(o),
    {
        AsActivity::new(None, None, Ztm::One(a), Ztm::One(o))
    }
}

} // verus!
