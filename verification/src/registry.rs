//! The typing registry: named message schemas for the pub/sub mediator,
//! keyed by name and direction.

use vstd::prelude::*;
use crate::text::str_eq_str;

verus! {

/// A message schema: a tree of records and fields.
#[derive(Debug)]
pub enum Schema {
    Root(String, Vec<Schema>),
    Record(String, Vec<Schema>),
    Field(String, String),
    RecordEnd,
}

/// Whether a typing describes inbound or outbound messages.
#[derive(PartialEq, Eq, Structural, Clone, Copy, Debug, Hash)]
pub enum TypingKind {
    In,
    Out,
}

/// The registry key: a name and a direction.
#[derive(Debug)]
pub struct TypingId {
    pub name: String,
    pub kind: TypingKind,
}

/// A registered typing.
#[derive(Debug)]
pub struct Typing {
    pub schema: Schema,
}

/// The registry of typings, keyed by name and direction; a later
/// registration under the same key shadows the earlier one.
pub struct TypingRegistry {
    pub typings: Vec<(TypingId, Typing)>,
}

/// The schema registered under a key: the most recent registration wins.
pub open spec fn spec_registry_lookup(
    s: Seq<(TypingId, Typing)>,
    name: Seq<char>,
    kind: TypingKind,
) -> Option<Schema>
    decreases s.len(),
{
    if s.len() == 0 {
        None
    } else if s.last().0.name@ == name && s.last().0.kind == kind {
        Some(s.last().1.schema)
    } else {
        spec_registry_lookup(s.drop_last(), name, kind)
    }
}

impl TypingRegistry {
    /// An empty registry.
    pub fn new() -> (r: TypingRegistry)
        ensures
            r.typings@.len() == 0,
    {
        TypingRegistry { typings: Vec::new() }
    }

    /// Registers a schema under a name and direction, shadowing any earlier
    /// registration under the same key and leaving every other key as it
    /// was.
    pub fn add_type(&mut self, name: String, kind: TypingKind, schema: Schema)
        ensures
            spec_registry_lookup(final(self).typings@, name@, kind) == Some(schema),
            forall|n: Seq<char>, k: TypingKind|
                !(n == name@ && k == kind) ==> spec_registry_lookup(
                    #[trigger] final(self).typings@,
                    n,
                    k,
                ) == spec_registry_lookup(old(self).typings@, n, k),
    {
        let ghost before = self.typings@;
        self.typings.push((TypingId { name, kind }, Typing { schema }));
        proof {
            assert(self.typings@.drop_last() =~= before);
        }
    }

    /// The schema registered under a key, if any.
    pub fn lookup(&self, name: &str, kind: TypingKind) -> (r: Option<&Schema>)
        ensures
            match r {
                Some(schema) => spec_registry_lookup(self.typings@, name@, kind) == Some(
                    *schema,
                ),
                None => spec_registry_lookup(self.typings@, name@, kind) is None,
            },
    {
        let mut i: usize = self.typings.len();
        proof {
            assert(self.typings@.take(self.typings@.len() as int) =~= self.typings@);
        }
        while i > 0
            invariant
                i <= self.typings@.len(),
                spec_registry_lookup(self.typings@, name@, kind) == spec_registry_lookup(
                    self.typings@.take(i as int),
                    name@,
                    kind,
                ),
            decreases i,
        {
            i = i - 1;
            let entry = &self.typings[i];
            let ghost prefix = self.typings@.take(i + 1);
            proof {
                assert(prefix.last() == self.typings@[i as int]);
                assert(prefix.drop_last() =~= self.typings@.take(i as int));
            }
            if str_eq_str(entry.0.name.as_str(), name) && entry.0.kind == kind {
                return Some(&entry.1.schema);
            }
        }
        proof {
            assert(self.typings@.take(0) =~= Seq::<(TypingId, Typing)>::empty());
        }
        None
    }
}

} // verus!
