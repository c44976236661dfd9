//! Which endpoint serves a session: a catalog of endpoints, looked up by
//! name or by what a model can do.
use vstd::prelude::*;
use crate::text::same_text;

verus! {

/// What a model is able to do.
#[derive(Clone, Copy, Debug, PartialEq, Eq, Structural)]
pub enum ModelCapability {
    Chat,
    ToolUse,
    Reasoning,
}

/// Where and how a model is reached.
#[derive(Debug)]
pub struct ApiInfo {
    pub model: String,
    pub base_url: String,
    pub api_key: String,
}

impl Clone for ApiInfo {
    fn clone(&self) -> (copy: ApiInfo)
        ensures
            copy == *self,
    {
        ApiInfo {
            model: self.model.clone(),
            base_url: self.base_url.clone(),
            api_key: self.api_key.clone(),
        }
    }
}

/// One endpoint of the catalog.
#[derive(Debug)]
pub struct ApiEntry {
    pub name: String,
    pub capabilities: Vec<ModelCapability>,
    pub info: ApiInfo,
}

/// The catalog of endpoints. Where several entries fit a lookup, the first
/// one is taken.
#[derive(Debug)]
pub struct Config {
    pub apis: Vec<ApiEntry>,
}

impl ApiEntry {
    /// Whether this endpoint's model has `capability`.
    pub open spec fn offers(&self, capability: ModelCapability) -> bool {
        self.capabilities@.contains(capability)
    }

    /// Whether this endpoint's model has `capability`.
    pub fn has_capability(&self, capability: ModelCapability) -> (r: bool)
        ensures
            r == self.offers(capability),
    {
        let mut i: usize = 0;
        while i < self.capabilities.len()
            invariant
                i <= self.capabilities@.len(),
                forall|j: int| 0 <= j < i ==> self.capabilities@[j] != capability,
            decreases self.capabilities@.len() - i,
        {
            if self.capabilities[i] == capability {
                return true;
            }
            i += 1;
        }
        false
    }
}

impl Config {
    /// Index of the first entry called `name`.
    pub open spec fn position_of_name(&self, name: Seq<char>) -> Option<int> {
        if exists|i: int| 0 <= i < self.apis@.len() && self.apis@[i].name@ == name {
            Some(
                choose|i: int|
                    0 <= i < self.apis@.len() && self.apis@[i].name@ == name && forall|j: int|
                        0 <= j < i ==> self.apis@[j].name@ != name,
            )
        } else {
            None
        }
    }

    /// Index of the first entry whose model has `capability`.
    pub open spec fn position_of_capability(&self, capability: ModelCapability) -> Option<int> {
        if exists|i: int| 0 <= i < self.apis@.len() && self.apis@[i].offers(capability) {
            Some(
                choose|i: int|
                    0 <= i < self.apis@.len() && self.apis@[i].offers(capability) && forall|j: int|
                        0 <= j < i ==> !self.apis@[j].offers(capability),
            )
        } else {
            None
        }
    }

    /// The endpoint of the first entry called `name`.
    pub open spec fn named(&self, name: Seq<char>) -> Option<ApiInfo> {
        match self.position_of_name(name) {
            Some(i) => Some(self.apis@[i].info),
            None => None,
        }
    }

    /// The endpoint of the first entry whose model has `capability`.
    pub open spec fn capable(&self, capability: ModelCapability) -> Option<ApiInfo> {
        match self.position_of_capability(capability) {
            Some(i) => Some(self.apis@[i].info),
            None => None,
        }
    }

    /// The endpoint of the first entry called `name`.
    pub fn get_api_info_with_name(&self, name: &str) -> (r: Option<&ApiInfo>)
        ensures
            match r {
                Some(info) => self.named(name@) == Some(*info),
                None => self.named(name@) is None,
            },
    {
        let mut i: usize = 0;
        while i < self.apis.len()
            invariant
                i <= self.apis@.len(),
                forall|j: int| 0 <= j < i ==> self.apis@[j].name@ != name@,
            decreases self.apis@.len() - i,
        {
            if same_text(self.apis[i].name.as_str(), name) {
                proof {
                    let found = self.position_of_name(name@).unwrap();
                    assert(found == i) by {
                        if found < i {
                            assert(self.apis@[found].name@ != name@);
                        }
                    }
                }
                return Some(&self.apis[i].info);
            }
            i += 1;
        }
        None
    }

    /// The endpoint of the first entry whose model has `capability`.
    pub fn get_api_info_with_capability(&self, capability: ModelCapability) -> (r: Option<&ApiInfo>)
        ensures
            match r {
                Some(info) => self.capable(capability) == Some(*info),
                None => self.capable(capability) is None,
            },
    {
        let mut i: usize = 0;
        while i < self.apis.len()
            invariant
                i <= self.apis@.len(),
                forall|j: int| 0 <= j < i ==> !self.apis@[j].offers(capability),
            decreases self.apis@.len() - i,
        {
            if self.apis[i].has_capability(capability) {
                proof {
                    let found = self.position_of_capability(capability).unwrap();
                    assert(found == i) by {
                        if found < i {
                            assert(!self.apis@[found].offers(capability));
                        }
                    }
                }
                return Some(&self.apis[i].info);
            }
            i += 1;
        }
        None
    }
}

} // verus!
