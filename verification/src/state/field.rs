//! Immutable descriptions of fields declared by a state schema.
use vstd::prelude::*;
use crate::text::{trimmed, trim_owned, is_blank};

verus! {

/// One validated field in a state template.
///
/// Its position is the corresponding payload slot in every state sharing
/// the schema.
pub struct StateFieldSchema {
    index: usize,
    name: String,
    description: Option<String>,
}

/// The normalized description: trimmed, and absent when blank.
pub open spec fn normalized_description(description: Option<Seq<char>>) -> Option<Seq<char>> {
    match description {
        Some(d) => if is_blank(d) { None } else { Some(trimmed(d)) },
        None => None,
    }
}

impl StateFieldSchema {
    /// Payload-slot position.
    pub closed spec fn position_spec(&self) -> nat {
        self.index as nat
    }

    /// Field name.
    pub closed spec fn name_spec(&self) -> Seq<char> {
        self.name@
    }

    /// Optional description.
    pub closed spec fn description_spec(&self) -> Option<Seq<char>> {
        match self.description {
            Some(d) => Some(d@),
            None => None,
        }
    }

    /// Declares the field at `index`: the name is trimmed; the description is
    /// trimmed and dropped when blank.
    pub fn new(index: usize, name: &str, description: Option<&str>) -> (r: Self)
        ensures
            r.position_spec() == index,
            r.name_spec() == trimmed(name@),
            r.description_spec() == normalized_description(match description {
                Some(d) => Some(d@),
                None => None,
            }),
    {
        let description = match description {
            Some(d) => {
                let d = trim_owned(d);
                if d.as_str().is_empty() {
                    assert(is_blank(description.unwrap()@));
                    None
                } else {
                    Some(d)
                }
            },
            None => None,
        };
        StateFieldSchema { index, name: trim_owned(name), description }
    }

    /// Returns the zero-based payload-slot position assigned by template order.
    pub fn position(&self) -> (r: usize)
        ensures
            r == self.position_spec(),
    {
        self.index
    }

    /// Returns the field name used by typed state accessors.
    pub fn name(&self) -> (r: &str)
        ensures
            r@ == self.name_spec(),
    {
        self.name.as_str()
    }

    /// Returns the optional natural-language payload description.
    pub fn description(&self) -> (r: Option<&str>)
        ensures
            r is Some == self.description_spec() is Some,
            r is Some ==> r->0@ == self.description_spec()->0,
    {
        match &self.description {
            Some(d) => Some(d.as_str()),
            None => None,
        }
    }

    /// Reports whether the field is named `name`.
    pub(crate) fn has_name(&self, name: &String) -> (r: bool)
        ensures
            r == (self.name_spec() == name@),
    {
        self.name == *name
    }

    /// Returns an owned copy of the field name.
    pub fn owned_name(&self) -> (r: String)
        ensures
            r@ == self.name_spec(),
    {
        self.name.clone()
    }
}

impl Clone for StateFieldSchema {
    fn clone(&self) -> (r: Self)
        ensures
            r == *self,
    {
        StateFieldSchema {
            index: self.index,
            name: self.name.clone(),
            description: match &self.description {
                Some(d) => Some(d.clone()),
                None => None,
            },
        }
    }
}

} // verus!
