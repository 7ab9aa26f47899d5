//! Directories and their fields.

use crate::error::Offset;
use crate::field_type::Type;
use crate::tag::Tag;
use vstd::prelude::*;

verus! {

/// What a field is, as a mathematical value.
pub struct FieldModel {
    pub type_: Type,
    pub count: u32,
    pub raw_data: Seq<u8>,
}

/// One field of a directory: the type of its values, how many there are,
/// and their bytes as the file holds them.
#[derive(Debug, PartialEq, Eq)]
pub struct Field {
    pub type_: Type,
    pub count: u32,
    pub raw_data: Vec<u8>,
}

impl View for Field {
    type V = FieldModel;

    open spec fn view(&self) -> FieldModel {
        FieldModel { type_: self.type_, count: self.count, raw_data: self.raw_data@ }
    }
}

impl FieldModel {
    /// A field as the reader hands it out: its type is one of the twelve of
    /// the format, it has at least one value, and it holds the bytes of all
    /// of them.
    pub open spec fn wf(&self) -> bool {
        &&& self.type_.wf()
        &&& self.type_ != Type::Unknown
        &&& self.type_ != Type::Unexpected
        &&& self.count >= 1
        &&& self.raw_data.len() == self.count * self.type_.spec_size()
    }
}

/// The position of `tag` among `entries`.
spec fn spec_position(entries: Seq<(Tag, Field)>, tag: Tag) -> int {
    choose|i: int| 0 <= i < entries.len() && entries[i].0 == tag
}

/// Whether `tag` occurs among `entries`.
spec fn spec_occurs(entries: Seq<(Tag, Field)>, tag: Tag) -> bool {
    exists|i: int| 0 <= i < entries.len() && entries[i].0 == tag
}

/// The fields of one directory, each under its tag. A tag occurs once: a
/// field put under a tag that is taken replaces the one that was there.
#[derive(Debug)]
pub struct FieldMap {
    entries: Vec<(Tag, Field)>,
}

impl View for FieldMap {
    type V = Map<Tag, FieldModel>;

    closed spec fn view(&self) -> Map<Tag, FieldModel> {
        Map::new(
            |tag: Tag| spec_occurs(self.entries@, tag),
            |tag: Tag| self.entries@[spec_position(self.entries@, tag)].1@,
        )
    }
}

impl FieldMap {
    #[verifier::type_invariant]
    spec fn distinct_tags(&self) -> bool {
        forall|i: int, j: int|
            0 <= i < j < self.entries@.len() ==> self.entries@[i].0 != self.entries@[j].0
    }

    /// The tags in the order in which each was first put in.
    pub closed spec fn spec_keys(&self) -> Seq<Tag> {
        self.entries@.map_values(|entry: (Tag, Field)| entry.0)
    }

    /// A map without fields.
    pub fn new() -> (r: FieldMap)
        ensures
            r@ == Map::<Tag, FieldModel>::empty(),
            r.spec_keys() == Seq::<Tag>::empty(),
    {
        let r = FieldMap { entries: Vec::new() };
        assert(r@ =~= Map::<Tag, FieldModel>::empty());
        assert(r.spec_keys() =~= Seq::<Tag>::empty());
        r
    }

    /// The number of fields.
    pub fn len(&self) -> (r: usize)
        ensures
            r == self@.dom().len(),
            self@.dom().finite(),
    {
        proof {
            use_type_invariant(self);
            self.lemma_domain();
        }
        self.entries.len()
    }

    /// The field under `tag`, if there is one.
    pub fn get(&self, tag: &Tag) -> (r: Option<&Field>)
        ensures
            match r {
                Some(field) => self@.contains_key(*tag) && field@ == self@[*tag],
                None => !self@.contains_key(*tag),
            },
    {
        proof {
            use_type_invariant(self);
        }
        let mut i: usize = 0;
        while i < self.entries.len()
            invariant
                self.distinct_tags(),
                i <= self.entries@.len(),
                forall|j: int| 0 <= j < i ==> self.entries@[j].0 != *tag,
            decreases self.entries@.len() - i,
        {
            if self.entries[i].0 == *tag {
                proof {
                    assert(self.entries@[i as int].0 == *tag);
                    assert(spec_occurs(self.entries@, *tag));
                    assert(spec_position(self.entries@, *tag) == i);
                }
                return Some(&self.entries[i].1);
            }
            i += 1;
        }
        None
    }

    /// Whether there is a field under `tag`.
    pub fn contains_key(&self, tag: &Tag) -> (r: bool)
        ensures
            r == self@.contains_key(*tag),
    {
        self.get(tag).is_some()
    }

    /// Puts `field` under `tag`. A field that was there is dropped; every
    /// other field stays.
    pub fn insert(&mut self, tag: Tag, field: Field)
        ensures
            final(self)@ == old(self)@.insert(tag, field@),
            final(self).spec_keys() == if old(self)@.contains_key(tag) {
                old(self).spec_keys()
            } else {
                old(self).spec_keys().push(tag)
            },
    {
        proof {
            use_type_invariant(&*self);
        }
        let ghost before = self.entries@;
        let ghost model = field@;
        let mut entries: Vec<(Tag, Field)> = Vec::new();
        core::mem::swap(&mut self.entries, &mut entries);
        let mut i: usize = 0;
        while i < entries.len() && entries[i].0 != tag
            invariant
                i <= entries@.len(),
                entries@ == before,
                forall|j: int| 0 <= j < i ==> entries@[j].0 != tag,
            decreases entries@.len() - i,
        {
            i += 1;
        }
        if i < entries.len() {
            entries[i] = (tag, field);
        } else {
            entries.push((tag, field));
        }
        let ghost after = entries@;
        proof {
            if i < before.len() {
                assert(before[i as int].0 == tag);
                assert(after[i as int].0 == tag);
                assert forall|j: int| 0 <= j < after.len() implies after[j].0 == before[j].0 by {}
            } else {
                assert(after[before.len() as int].0 == tag);
                assert forall|j: int| 0 <= j < before.len() implies after[j] == before[j] by {}
            }
            assert forall|t: Tag| spec_occurs(after, t) == (t == tag || spec_occurs(before, t)) by {
                if spec_occurs(after, t) && t != tag {
                    let j = spec_position(after, t);
                    assert(before[j].0 == t);
                }
                if spec_occurs(before, t) {
                    let j = spec_position(before, t);
                    assert(after[j].0 == t);
                }
            }
            assert forall|t: Tag| spec_occurs(before, t) && t != tag implies after[spec_position(
                after,
                t,
            )] == before[spec_position(before, t)] by {
                let j = spec_position(before, t);
                assert(after[j].0 == t);
                let k = spec_position(after, t);
                assert(k == j);
            }
            assert(after[spec_position(after, tag)].1@ == model);
        }
        core::mem::swap(&mut self.entries, &mut entries);
        assert(self@ =~= old(self)@.insert(tag, model));
        proof {
            if i < before.len() {
                assert(spec_occurs(before, tag));
                assert(self.spec_keys() =~= old(self).spec_keys());
            } else {
                assert(!spec_occurs(before, tag));
                assert(self.spec_keys() =~= old(self).spec_keys().push(tag));
            }
        }
    }

    /// The tags of the fields, in the order in which each was first put in.
    pub fn keys(&self) -> (r: Vec<Tag>)
        ensures
            r@ == self.spec_keys(),
            r@.no_duplicates(),
            r@.to_set() == self@.dom(),
    {
        proof {
            use_type_invariant(self);
            self.lemma_domain();
        }
        let mut r: Vec<Tag> = Vec::new();
        let mut i: usize = 0;
        while i < self.entries.len()
            invariant
                i <= self.entries@.len(),
                r@ == self.spec_keys().take(i as int),
            decreases self.entries@.len() - i,
        {
            r.push(self.entries[i].0);
            assert(self.spec_keys().take(i as int + 1) == self.spec_keys().take(i as int).push(
                self.spec_keys()[i as int],
            ));
            i += 1;
        }
        assert(r@ == self.spec_keys());
        r
    }

    /// The tags are the domain of the view, each once.
    proof fn lemma_domain(&self)
        requires
            self.distinct_tags(),
        ensures
            self.spec_keys().no_duplicates(),
            self.spec_keys().to_set() == self@.dom(),
            self@.dom().finite(),
            self@.dom().len() == self.entries@.len(),
    {
        let keys = self.spec_keys();
        assert forall|t: Tag| keys.to_set().contains(t) == self@.dom().contains(t) by {
            if keys.to_set().contains(t) {
                let j = choose|j: int| 0 <= j < keys.len() && keys[j] == t;
                assert(self.entries@[j].0 == t);
            }
            if spec_occurs(self.entries@, t) {
                let j = spec_position(self.entries@, t);
                assert(keys[j] == t);
            }
        }
        assert(keys.to_set() =~= self@.dom());
        keys.unique_seq_to_set();
    }
}

/// What a directory is, as a mathematical value.
pub struct IfdModel {
    pub fields: Map<Tag, FieldModel>,
    pub offset: Offset,
}

/// One image file directory: its fields, and the offset of the directory
/// that follows it in the chain, 0 where none follows.
#[derive(Debug)]
pub struct Ifd {
    pub fields: FieldMap,
    pub offset: Offset,
}

impl View for Ifd {
    type V = IfdModel;

    open spec fn view(&self) -> IfdModel {
        IfdModel { fields: self.fields@, offset: self.offset }
    }
}

impl IfdModel {
    /// Every field of the directory is as the reader hands fields out.
    pub open spec fn wf(&self) -> bool {
        forall|tag: Tag| #[trigger] self.fields.contains_key(tag) ==> self.fields[tag].wf()
    }
}

} // verus!
