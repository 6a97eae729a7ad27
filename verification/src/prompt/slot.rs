//! Slot specifications: which prompt kinds a slot takes, its variables and
//! output contract, and the registry of slots.
use crate::prompt::error::PromptError;
use crate::prompt::model::{PromptKind, SlotId};
use crate::text::{join, join_strings, owned, text_eq, views_of};
use vstd::prelude::*;

verus! {

#[derive(Debug, Clone, Copy, PartialEq, Eq, Structural)]
pub enum VarType {
    String,
    Number,
    Bool,
    Array,
    Object,
    Any,
}

#[derive(Debug, Clone)]
pub struct VarSpec {
    pub name: String,
    pub var_type: VarType,
    pub required: bool,
}

#[derive(Debug, Clone)]
pub struct OutputContract {
    pub min_length: Option<usize>,
    pub max_length: Option<usize>,
    pub must_contain: Vec<String>,
    pub must_not_contain: Vec<String>,
}

#[derive(Debug, Clone)]
pub struct SlotSpec {
    pub slot_id: SlotId,
    pub allowed_kinds: Vec<PromptKind>,
    pub required: bool,
    pub structured_output: bool,
    pub output_contract_required: bool,
    pub optimizable: bool,
    pub allow_child_render: bool,
    pub notes: Option<String>,
    pub vars: Vec<VarSpec>,
    pub output_contract: Option<OutputContract>,
}

/// The options a slot sets that rendering does not support, in order.
pub open spec fn unsupported_options(s: SlotSpec) -> Seq<Seq<char>> {
    (if s.structured_output { seq!["structured_output"@] } else { Seq::empty() }) + (if s.output_contract_required {
        seq!["output_contract_required"@]
    } else {
        Seq::empty()
    }) + (if s.optimizable { seq!["optimizable"@] } else { Seq::empty() }) + (if s.allow_child_render {
        seq!["allow_child_render"@]
    } else {
        Seq::empty()
    })
}

impl SlotSpec {
    pub fn accepts_kind(&self, kind: &PromptKind) -> (r: bool)
        ensures
            r == self.allowed_kinds@.contains(*kind),
    {
        let mut i: usize = 0;
        while i < self.allowed_kinds.len()
            invariant
                i <= self.allowed_kinds@.len(),
                forall|j: int| 0 <= j < i ==> self.allowed_kinds@[j] != *kind,
            decreases self.allowed_kinds@.len() - i,
        {
            if self.allowed_kinds[i] == *kind {
                return true;
            }
            i = i + 1;
        }
        false
    }

    /// Refuses a slot that sets options rendering does not support, naming
    /// them.
    pub fn validate_supported_options(&self) -> (r: Result<(), PromptError>)
        ensures
            unsupported_options(*self).len() == 0 ==> r is Ok,
            unsupported_options(*self).len() > 0 ==> (r matches Err(PromptError::CatalogLoad(m)) && m@ == "slot `"@
                + self.slot_id@ + "` uses unsupported options: "@ + join(unsupported_options(*self), ", "@)),
    {
        let mut unsupported: Vec<String> = Vec::new();
        if self.structured_output {
            unsupported.push(owned("structured_output"));
        }
        let ghost a = views_of(unsupported@);
        if self.output_contract_required {
            unsupported.push(owned("output_contract_required"));
        }
        let ghost b = views_of(unsupported@);
        if self.optimizable {
            unsupported.push(owned("optimizable"));
        }
        let ghost c = views_of(unsupported@);
        if self.allow_child_render {
            unsupported.push(owned("allow_child_render"));
        }
        assert(views_of(unsupported@) =~= unsupported_options(*self));
        if unsupported.len() > 0 {
            let mut m = String::new();
            m.append("slot `");
            m.append(self.slot_id.as_str());
            m.append("` uses unsupported options: ");
            let j = join_strings(&unsupported, ", ");
            m.append(j.as_str());
            return Err(PromptError::CatalogLoad(m));
        }
        Ok(())
    }
}

pub open spec fn slot_ids(specs: Seq<SlotSpec>) -> Seq<Seq<char>> {
    specs.map_values(|s: SlotSpec| s.slot_id@)
}

/// Why a list of slot specifications is refused, if it is: the first slot
/// that sets unsupported options, or whose id an earlier slot has.
pub open spec fn slot_registry_error(specs: Seq<SlotSpec>) -> Option<Seq<char>>
    decreases specs.len(),
{
    if specs.len() == 0 {
        None
    } else {
        match slot_registry_error(specs.drop_last()) {
            Some(m) => Some(m),
            None => {
                let s = specs.last();
                if unsupported_options(s).len() > 0 {
                    Some("slot `"@ + s.slot_id@ + "` uses unsupported options: "@ + join(unsupported_options(s), ", "@))
                } else if slot_ids(specs.drop_last()).contains(s.slot_id@) {
                    Some("duplicate slot_id `"@ + s.slot_id@ + "` in slots.yaml"@)
                } else {
                    None
                }
            },
        }
    }
}

/// The slot registry of a slots file: every slot checked for supported
/// options, each id once.
pub fn build_slot_registry(specs: Vec<SlotSpec>) -> (r: Result<Vec<SlotSpec>, PromptError>)
    ensures
        match slot_registry_error(specs@) {
            Some(m) => r matches Err(PromptError::CatalogLoad(t)) && t@ == m,
            None => r matches Ok(v) && v@ == specs@,
        },
{
    let mut i: usize = 0;
    assert(specs@.take(0) =~= Seq::<SlotSpec>::empty());
    while i < specs.len()
        invariant
            i <= specs@.len(),
            slot_registry_error(specs@.take(i as int)) is None,
        decreases specs@.len() - i,
    {
        proof {
            assert(specs@.take(i + 1).drop_last() =~= specs@.take(i as int));
            assert(specs@.take(i + 1).last() == specs@[i as int]);
        }
        match specs[i].validate_supported_options() {
            Ok(()) => {},
            Err(e) => {
                proof {
                    lemma_registry_error_sticks(specs@, i as int + 1);
                }
                return Err(e);
            },
        }
        let mut j: usize = 0;
        let mut dup = false;
        while j < i
            invariant
                j <= i,
                i < specs@.len(),
                dup ==> slot_ids(specs@.take(i as int)).contains(specs@[i as int].slot_id@),
                !dup ==> forall|k: int| 0 <= k < j ==> (#[trigger] specs@[k]).slot_id@ != specs@[i as int].slot_id@,
            decreases i - j,
        {
            if text_eq(specs[j].slot_id.as_str(), specs[i].slot_id.as_str()) {
                assert(slot_ids(specs@.take(i as int))[j as int] == specs@[i as int].slot_id@);
                dup = true;
            }
            j = j + 1;
        }
        if dup {
            let mut m = String::new();
            m.append("duplicate slot_id `");
            m.append(specs[i].slot_id.as_str());
            m.append("` in slots.yaml");
            proof {
                lemma_registry_error_sticks(specs@, i as int + 1);
            }
            return Err(PromptError::CatalogLoad(m));
        }
        proof {
            if slot_ids(specs@.take(i as int)).contains(specs@[i as int].slot_id@) {
                let k = choose|k: int|
                    0 <= k < slot_ids(specs@.take(i as int)).len() && slot_ids(specs@.take(i as int))[k]
                        == specs@[i as int].slot_id@;
                assert(specs@[k].slot_id@ == specs@[i as int].slot_id@);
            }
        }
        i = i + 1;
    }
    assert(specs@.take(specs@.len() as int) =~= specs@);
    Ok(specs)
}

proof fn lemma_registry_error_sticks(specs: Seq<SlotSpec>, k: int)
    requires
        0 <= k <= specs.len(),
        slot_registry_error(specs.take(k)) is Some,
    ensures
        slot_registry_error(specs) == slot_registry_error(specs.take(k)),
    decreases specs.len() - k,
{
    if k < specs.len() {
        assert(specs.take(k + 1).drop_last() =~= specs.take(k));
        lemma_registry_error_sticks(specs, k + 1);
    } else {
        assert(specs.take(k) =~= specs);
    }
}

} // verus!
