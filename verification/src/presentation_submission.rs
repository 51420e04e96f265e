//! The holder's claimed correlation: which descriptor of the definition is
//! satisfied where inside the submitted presentation.

use vstd::prelude::*;

use crate::credential_format::ClaimFormatDesignation;

verus! {

/// One correlation entry: an input descriptor id, the claim format the
/// matching proof is encoded in, a locator expression into the presentation
/// envelope, and an optional nested locator for enveloped formats.
#[derive(Debug)]
pub struct DescriptorMap {
    pub id: String,
    pub format: ClaimFormatDesignation,
    pub path: String,
    pub path_nested: Option<Box<DescriptorMap>>,
}

impl DescriptorMap {
    /// Creates an entry correlating the descriptor `id` to the value at
    /// `path`, encoded as `format`.
    pub fn new(id: String, format: ClaimFormatDesignation, path: String) -> (r: Self)
        ensures
            r == (DescriptorMap { id, format, path, path_nested: None }),
    {
        Self { id, format, path, path_nested: None }
    }

    /// The id of the input descriptor this entry claims to satisfy.
    pub fn id(&self) -> (r: &String)
        ensures
            r == self.id,
    {
        &self.id
    }

    /// The claim format the located proof is encoded in.
    pub fn format(&self) -> (r: &ClaimFormatDesignation)
        ensures
            r == self.format,
    {
        &self.format
    }

    /// The locator expression into the presentation envelope.
    pub fn path(&self) -> (r: &String)
        ensures
            r == self.path,
    {
        &self.path
    }

    /// Attaches a nested locator for an enveloped format.
    pub fn set_path_nested(self, path_nested: DescriptorMap) -> (r: Self)
        ensures
            r == (DescriptorMap { path_nested: Some(Box::new(path_nested)), ..self }),
    {
        Self { path_nested: Some(Box::new(path_nested)), ..self }
    }

    /// The nested locator, when one is attached.
    pub fn path_nested(&self) -> (r: Option<&DescriptorMap>)
        ensures
            match r {
                Some(d) => self.path_nested == Some(Box::new(*d)),
                None => self.path_nested is None,
            },
    {
        match &self.path_nested {
            Some(d) => Some(d),
            None => None,
        }
    }
}

/// The holder's submission: a generated id, the id of the definition it
/// claims to satisfy, and one descriptor-map entry per satisfied descriptor.
#[derive(Debug)]
pub struct PresentationSubmission {
    pub id: String,
    pub definition_id: String,
    pub descriptor_map: Vec<DescriptorMap>,
}

impl PresentationSubmission {
    /// Creates a submission claiming to satisfy the definition
    /// `definition_id` through the given descriptor-map entries.
    pub fn new(id: String, definition_id: String, descriptor_map: Vec<DescriptorMap>) -> (r: Self)
        ensures
            r == (PresentationSubmission { id, definition_id, descriptor_map }),
    {
        Self { id, definition_id, descriptor_map }
    }

    /// The generated id of this submission.
    pub fn id(&self) -> (r: &String)
        ensures
            r == self.id,
    {
        &self.id
    }

    /// The id of the definition this submission claims to satisfy.
    pub fn definition_id(&self) -> (r: &String)
        ensures
            r == self.definition_id,
    {
        &self.definition_id
    }

    /// The descriptor-map entries, in submitted order.
    pub fn descriptor_map(&self) -> (r: &Vec<DescriptorMap>)
        ensures
            r == self.descriptor_map,
    {
        &self.descriptor_map
    }

    /// The entry for the descriptor `id`, a later entry with the same id
    /// winning over an earlier one.
    pub open spec fn spec_find_entry(maps: Seq<DescriptorMap>, id: Seq<char>) -> Option<
        DescriptorMap,
    >
        decreases maps.len(),
    {
        if maps.len() == 0 {
            None
        } else if maps.last().id@ == id {
            Some(maps.last())
        } else {
            Self::spec_find_entry(maps.drop_last(), id)
        }
    }

    /// Finds the entry for the descriptor `id`, the last entry with that id
    /// winning.
    #[verifier::loop_isolation(false)]
    pub fn find_entry<'a>(&'a self, id: &String) -> (r: Option<&'a DescriptorMap>)
        ensures
            match r {
                Some(d) => Self::spec_find_entry(self.descriptor_map@, id@) == Some(*d),
                None => Self::spec_find_entry(self.descriptor_map@, id@) is None,
            },
    {
        let maps = &self.descriptor_map;
        let mut i: usize = maps.len();
        assert(maps@.take(maps.len() as int) =~= maps@);
        while i > 0
            invariant
                i <= maps@.len(),
                Self::spec_find_entry(maps@, id@) == Self::spec_find_entry(
                    maps@.take(i as int),
                    id@,
                ),
            decreases i,
        {
            i = i - 1;
            assert(maps@.take(i as int + 1).drop_last() =~= maps@.take(i as int));
            assert(maps@.take(i as int + 1).last() == maps@[i as int]);
            if maps[i].id.eq(id) {
                proof {
                    assert(Self::spec_find_entry(maps@.take(i as int + 1), id@) == Some(
                        maps@[i as int],
                    ));
                }
                return Some(&maps[i]);
            }
        }
        assert(maps@.take(0) =~= Seq::<DescriptorMap>::empty());
        None
    }
}

} // verus!
