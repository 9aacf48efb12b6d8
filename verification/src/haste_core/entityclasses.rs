//! Entity classes, known by the hash of their network name.

use crate::haste_core::fxhash::{fx_hash_bytes, hash_bytes};
use vstd::prelude::*;
use vstd::string::StringSliceAdditionalSpecFns;
use vstd::utf8::encode_utf8;

verus! {

/// An entity class.
#[derive(Debug, Clone, Copy, PartialEq, Eq, Structural)]
pub struct ClassInfo {
    /// The FxHash of the class's network name.
    pub network_name_hash: u64,
}

impl ClassInfo {
    /// The class named `network_name`.
    pub fn new(network_name: &str) -> (r: ClassInfo)
        ensures
            r.network_name_hash == fx_hash_bytes(network_name.spec_bytes()),
    {
        ClassInfo { network_name_hash: hash_bytes(network_name.as_bytes()) }
    }
}

/// The entity classes of a replay, by class id.
pub struct EntityClasses {
    /// How many classes there are.
    pub classes: usize,
    /// How many bits a class id takes in entity data.
    pub bits: usize,
    class_infos: Vec<ClassInfo>,
}

impl EntityClasses {
    /// The class of each id, in id order.
    pub closed spec fn infos(&self) -> Seq<ClassInfo> {
        self.class_infos@
    }

    /// How many classes there are.
    pub closed spec fn class_count(&self) -> usize {
        self.classes
    }

    /// How many bits a class id takes.
    pub closed spec fn id_bits(&self) -> usize {
        self.bits
    }

    /// The classes named `network_names`, the class of id `i` being named by the `i`-th name;
    /// class ids take `bits` bits (the ceiling of the base 2 logarithm of the number of classes,
    /// which the caller computes as the replay format does, in single precision).
    pub fn parse(network_names: &[String], bits: usize) -> (r: EntityClasses)
        ensures
            r.class_count() == network_names@.len(),
            r.id_bits() == bits,
            r.infos().len() == network_names@.len(),
            forall|i: int| 0 <= i < network_names@.len() ==> (#[trigger] r.infos()[i]).network_name_hash
                == fx_hash_bytes(encode_utf8(network_names@[i]@)),
    {
        let mut class_infos: Vec<ClassInfo> = Vec::with_capacity(network_names.len());
        let mut i: usize = 0;
        while i < network_names.len()
            invariant
                i <= network_names@.len(),
                class_infos@.len() == i,
                forall|j: int| 0 <= j < i ==> (#[trigger] class_infos@[j]).network_name_hash
                    == fx_hash_bytes(encode_utf8(network_names@[j]@)),
            decreases network_names@.len() - i,
        {
            class_infos.push(ClassInfo::new(network_names[i].as_str()));
            i = i + 1;
        }
        EntityClasses { classes: network_names.len(), bits, class_infos }
    }

    /// The class of id `class_id`.
    pub fn by_id_unckecked(&self, class_id: i32) -> (r: &ClassInfo)
        requires
            0 <= class_id < self.infos().len(),
        ensures
            *r == self.infos()[class_id as int],
    {
        &self.class_infos[class_id as usize]
    }
}

} // verus!
