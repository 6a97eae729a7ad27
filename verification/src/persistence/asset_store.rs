//! Frozen story packs and character cards, and the references a story
//! instance keeps to them.
use crate::text::owned;
use vstd::prelude::*;

verus! {

/// What identifies a frozen story pack: its id, key, version and digest.
#[derive(Debug, Clone)]
pub struct FrozenStoryPackRef {
    pub pack_id: String,
    pub pack_key: String,
    pub version: String,
    pub digest: String,
}

/// The identifying fields of a story pack's manifest.
#[derive(Debug, Clone)]
pub struct StoryPackMeta {
    pub pack_key: String,
    pub version: String,
}

/// A stored story pack, frozen under its digest.
#[derive(Debug, Clone)]
pub struct FrozenStoryPack {
    pub pack_id: String,
    pub meta: StoryPackMeta,
    pub digest: String,
}

impl FrozenStoryPack {
    pub fn frozen_ref(&self) -> (r: FrozenStoryPackRef)
        ensures
            r.pack_id@ == self.pack_id@,
            r.pack_key@ == self.meta.pack_key@,
            r.version@ == self.meta.version@,
            r.digest@ == self.digest@,
    {
        FrozenStoryPackRef {
            pack_id: owned(self.pack_id.as_str()),
            pack_key: owned(self.meta.pack_key.as_str()),
            version: owned(self.meta.version.as_str()),
            digest: owned(self.digest.as_str()),
        }
    }
}

#[derive(Debug, Clone)]
pub struct PackInfo {
    pub pack_id: String,
    pub pack_key: String,
    pub version: String,
    pub digest: String,
}

/// What identifies a frozen character card.
#[derive(Debug, Clone)]
pub struct FrozenCharacterCardRef {
    pub character_id: String,
    pub version: String,
    pub digest: String,
}

/// A stored character card, frozen under its digest.
#[derive(Debug, Clone)]
pub struct FrozenCharacterCard {
    pub character_id: String,
    pub version: String,
    pub digest: String,
}

impl FrozenCharacterCard {
    pub fn frozen_ref(&self) -> (r: FrozenCharacterCardRef)
        ensures
            r.character_id@ == self.character_id@,
            r.version@ == self.version@,
            r.digest@ == self.digest@,
    {
        FrozenCharacterCardRef {
            character_id: owned(self.character_id.as_str()),
            version: owned(self.version.as_str()),
            digest: owned(self.digest.as_str()),
        }
    }
}

} // verus!
