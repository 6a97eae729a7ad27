//! The three layers of a composed prompt and the variables they render with.
use crate::prompt::error::PromptError;
use crate::prompt::metadata::PromptMetadata;
use crate::prompt::profile::{profile_name, PromptProfile};
use crate::text::{owned, text_eq};
use vstd::prelude::*;

verus! {

/// The layers of a prompt: core system instruction, runtime context, final
/// task instruction.
#[derive(Debug, Clone, Copy, PartialEq, Eq, Hash, Structural)]
pub enum PromptLayer {
    Csi,
    Rc,
    Fti,
}

pub open spec fn layer_name(l: PromptLayer) -> Seq<char> {
    match l {
        PromptLayer::Csi => "csi"@,
        PromptLayer::Rc => "rc"@,
        PromptLayer::Fti => "fti"@,
    }
}

impl PromptLayer {
    pub fn as_str(self) -> (r: &'static str)
        ensures
            r@ == layer_name(self),
    {
        match self {
            PromptLayer::Csi => "csi",
            PromptLayer::Rc => "rc",
            PromptLayer::Fti => "fti",
        }
    }
}

#[derive(Debug, Clone)]
pub struct CoreSystemInstruction(pub String);

impl CoreSystemInstruction {
    pub fn as_str(&self) -> (r: &str)
        ensures
            r@ == self.0@,
    {
        self.0.as_str()
    }
}

#[derive(Debug, Clone)]
pub struct RuntimeContextMessage(pub String);

impl RuntimeContextMessage {
    pub fn as_str(&self) -> (r: &str)
        ensures
            r@ == self.0@,
    {
        self.0.as_str()
    }
}

#[derive(Debug, Clone)]
pub struct FinalTaskInstruction(pub String);

impl FinalTaskInstruction {
    pub fn as_str(&self) -> (r: &str)
        ensures
            r@ == self.0@,
    {
        self.0.as_str()
    }
}

#[derive(Debug, Clone)]
pub struct PromptCompositionMetadata {
    pub csi: PromptMetadata,
    pub rc: PromptMetadata,
    pub fti: PromptMetadata,
}

#[derive(Debug, Clone)]
pub struct PromptComposition {
    pub profile: PromptProfile,
    pub csi: CoreSystemInstruction,
    pub rc: RuntimeContextMessage,
    pub fti: FinalTaskInstruction,
    pub metadata: PromptCompositionMetadata,
}

/// No two variables share a name.
pub open spec fn names_distinct(vs: Seq<(String, String)>) -> bool {
    forall|a: int, b: int| 0 <= a < b < vs.len() ==> (#[trigger] vs[a]).0@ != (#[trigger] vs[b]).0@
}

/// The variables as a map from name to value; a later entry for a name
/// replaces an earlier one.
pub open spec fn vars_map(vs: Seq<(String, String)>) -> Map<Seq<char>, Seq<char>>
    decreases vs.len(),
{
    if vs.len() == 0 {
        Map::empty()
    } else {
        vars_map(vs.drop_last()).insert(vs.last().0@, vs.last().1@)
    }
}

proof fn lemma_vars_map_update(vs: Seq<(String, String)>, j: int, e: (String, String))
    requires
        names_distinct(vs),
        0 <= j < vs.len(),
        vs[j].0@ == e.0@,
    ensures
        vars_map(vs.update(j, e)) == vars_map(vs).insert(e.0@, e.1@),
    decreases vs.len(),
{
    let u = vs.update(j, e);
    assert(u.drop_last() =~= if j == vs.len() - 1 {
        vs.drop_last()
    } else {
        vs.drop_last().update(j, e)
    });
    if j == vs.len() - 1 {
        assert(vars_map(u) =~= vars_map(vs).insert(e.0@, e.1@));
    } else {
        assert(names_distinct(vs.drop_last()));
        lemma_vars_map_update(vs.drop_last(), j, e);
        assert(vs.last().0@ != e.0@);
        assert(vars_map(u) =~= vars_map(vs).insert(e.0@, e.1@));
    }
}

fn position_of(vs: &Vec<(String, String)>, name: &str) -> (r: Option<usize>)
    ensures
        match r {
            Some(j) => j < vs@.len() && vs@[j as int].0@ == name@,
            None => forall|k: int| 0 <= k < vs@.len() ==> (#[trigger] vs@[k]).0@ != name@,
        },
{
    let mut k: usize = 0;
    while k < vs.len()
        invariant
            k <= vs@.len(),
            forall|m: int| 0 <= m < k ==> (#[trigger] vs@[m]).0@ != name@,
        decreases vs@.len() - k,
    {
        if text_eq(vs[k].0.as_str(), name) {
            return Some(k);
        }
        k = k + 1;
    }
    None
}

fn all_names_distinct(vs: &Vec<(String, String)>) -> (r: bool)
    ensures
        r == names_distinct(vs@),
{
    let mut b: usize = 0;
    while b < vs.len()
        invariant
            b <= vs@.len(),
            forall|x: int, y: int| 0 <= x < y < b ==> (#[trigger] vs@[x]).0@ != (#[trigger] vs@[y]).0@,
        decreases vs@.len() - b,
    {
        let mut a: usize = 0;
        while a < b
            invariant
                a <= b < vs@.len(),
                forall|x: int, y: int| 0 <= x < y < b ==> (#[trigger] vs@[x]).0@ != (#[trigger] vs@[y]).0@,
                forall|x: int| 0 <= x < a ==> (#[trigger] vs@[x]).0@ != vs@[b as int].0@,
            decreases b - a,
        {
            if text_eq(vs[a].0.as_str(), vs[b].0.as_str()) {
                return false;
            }
            a = a + 1;
        }
        b = b + 1;
    }
    true
}

/// The variables with one entry per name, the last given for it, each at
/// the place its name first came.
fn last_per_name(vars: &Vec<(String, String)>) -> (r: Vec<(String, String)>)
    ensures
        names_distinct(r@),
        vars_map(r@) == vars_map(vars@),
{
    let mut out: Vec<(String, String)> = Vec::new();
    let mut i: usize = 0;
    while i < vars.len()
        invariant
            i <= vars@.len(),
            names_distinct(out@),
            vars_map(out@) == vars_map(vars@.take(i as int)),
        decreases vars@.len() - i,
    {
        assert(vars@.take(i + 1).drop_last() =~= vars@.take(i as int));
        assert(vars@.take(i + 1).last() == vars@[i as int]);
        let e = (owned(vars[i].0.as_str()), owned(vars[i].1.as_str()));
        match position_of(&out, vars[i].0.as_str()) {
            Some(j) => {
                proof {
                    lemma_vars_map_update(out@, j as int, e);
                }
                out.set(j, e);
                proof {
                    assert(vars_map(out@) =~= vars_map(vars@.take(i + 1)));
                    assert forall|a: int, b: int| 0 <= a < b < out@.len() implies (#[trigger] out@[a]).0@
                        != (#[trigger] out@[b]).0@ by {
                        if a != j && b != j {
                        }
                    }
                }
            },
            None => {
                let ghost before = out@;
                out.push(e);
                proof {
                    assert(out@.drop_last() =~= before);
                    assert(vars_map(out@) =~= vars_map(vars@.take(i + 1)));
                }
            },
        }
        i = i + 1;
    }
    assert(vars@.take(i as int) =~= vars@);
    out
}

/// One entry per name, the last given for it: the variables unchanged when
/// no name repeats.
fn keyed_vars(vars: Vec<(String, String)>) -> (r: Vec<(String, String)>)
    ensures
        names_distinct(r@),
        vars_map(r@) == vars_map(vars@),
        names_distinct(vars@) ==> r == vars,
{
    if all_names_distinct(&vars) {
        vars
    } else {
        last_per_name(&vars)
    }
}

/// Variables of untrusted runtime data, by name; every value is a text,
/// and no two share a name.
#[derive(Debug, Clone)]
pub struct RuntimePromptVars {
    pub vars: Vec<(String, String)>,
}

impl RuntimePromptVars {
    pub open spec fn wf(&self) -> bool {
        names_distinct(self.vars@)
    }

    /// The variables by name, the last given for a name kept (at the place
    /// the name first came); unchanged when no name repeats.
    pub fn new(vars: Vec<(String, String)>) -> (r: RuntimePromptVars)
        ensures
            r.wf(),
            vars_map(r.vars@) == vars_map(vars@),
            names_distinct(vars@) ==> r.vars == vars,
    {
        RuntimePromptVars { vars: keyed_vars(vars) }
    }

    pub fn as_map(&self) -> (r: &Vec<(String, String)>)
        ensures
            r == &self.vars,
    {
        &self.vars
    }
}

/// Variables of trusted data, by name; every value is a text, and no two
/// share a name.
#[derive(Debug, Clone)]
pub struct TrustedPromptVars {
    pub vars: Vec<(String, String)>,
}

impl TrustedPromptVars {
    pub open spec fn wf(&self) -> bool {
        names_distinct(self.vars@)
    }

    /// The variables by name, the last given for a name kept (at the place
    /// the name first came); unchanged when no name repeats.
    pub fn new(vars: Vec<(String, String)>) -> (r: TrustedPromptVars)
        ensures
            r.wf(),
            vars_map(r.vars@) == vars_map(vars@),
            names_distinct(vars@) ==> r.vars == vars,
    {
        TrustedPromptVars { vars: keyed_vars(vars) }
    }

    pub fn as_map(&self) -> (r: &Vec<(String, String)>)
        ensures
            r == &self.vars,
    {
        &self.vars
    }
}

#[derive(Debug, Clone)]
pub struct PromptCompositionInput {
    pub profile: PromptProfile,
    pub rc_vars: RuntimePromptVars,
    pub fti_vars: TrustedPromptVars,
}

/// Encodes a composed prompt for a model provider.
pub trait ProviderPromptEncoder {
    type Encoded;

    fn encode(&self, composition: &PromptComposition) -> Result<Self::Encoded, PromptError>;
}

/// The error a layer fails with: a slot that does not render as text is
/// reported as the layer having to render as text; other errors as they are.
pub open spec fn layer_error_is(profile: PromptProfile, layer: PromptLayer, e: PromptError, r: PromptError) -> bool {
    if e is KindMismatch {
        r matches PromptError::LayerMustRenderAsText { profile: p, layer: l } && p@ == profile_name(profile) && l@
            == layer_name(layer)
    } else {
        r == e
    }
}

pub fn layer_error(profile: PromptProfile, layer: PromptLayer, error: PromptError) -> (r: PromptError)
    ensures
        layer_error_is(profile, layer, error, r),
{
    match error {
        PromptError::KindMismatch { .. } => PromptError::LayerMustRenderAsText {
            profile: owned(profile.as_str()),
            layer: owned(layer.as_str()),
        },
        other => other,
    }
}

/// Assembles a composition from the renders of its three layers, in
/// order: the first layer that failed decides the error.
pub fn assemble_composition(
    profile: PromptProfile,
    csi: Result<(String, PromptMetadata), PromptError>,
    rc: Result<(String, PromptMetadata), PromptError>,
    fti: Result<(String, PromptMetadata), PromptError>,
) -> (r: Result<PromptComposition, PromptError>)
    ensures
        match csi {
            Err(e) => r matches Err(x) && layer_error_is(profile, PromptLayer::Csi, e, x),
            Ok(c) => match rc {
                Err(e) => r matches Err(x) && layer_error_is(profile, PromptLayer::Rc, e, x),
                Ok(m) => match fti {
                    Err(e) => r matches Err(x) && layer_error_is(profile, PromptLayer::Fti, e, x),
                    Ok(f) => r matches Ok(p) && p.profile == profile && p.csi.0 == c.0 && p.rc.0 == m.0 && p.fti.0
                        == f.0 && p.metadata.csi == c.1 && p.metadata.rc == m.1 && p.metadata.fti == f.1,
                },
            },
        },
{
    let (csi_text, csi_metadata) = match csi {
        Ok(v) => v,
        Err(e) => {
            return Err(layer_error(profile, PromptLayer::Csi, e));
        },
    };
    let (rc_text, rc_metadata) = match rc {
        Ok(v) => v,
        Err(e) => {
            return Err(layer_error(profile, PromptLayer::Rc, e));
        },
    };
    let (fti_text, fti_metadata) = match fti {
        Ok(v) => v,
        Err(e) => {
            return Err(layer_error(profile, PromptLayer::Fti, e));
        },
    };
    Ok(
        PromptComposition {
            profile,
            csi: CoreSystemInstruction(csi_text),
            rc: RuntimeContextMessage(rc_text),
            fti: FinalTaskInstruction(fti_text),
            metadata: PromptCompositionMetadata { csi: csi_metadata, rc: rc_metadata, fti: fti_metadata },
        },
    )
}


/// Law: each prompt layer is reported under its own name: the names are these, and two different values never share one.
pub proof fn law_layer_names_are_distinct(a: PromptLayer, b: PromptLayer)
    ensures
        layer_name(PromptLayer::Csi) == "csi"@,
        layer_name(PromptLayer::Rc) == "rc"@,
        layer_name(PromptLayer::Fti) == "fti"@,
        a != b ==> layer_name(a) != layer_name(b),
{
    reveal_strlit("csi");
    reveal_strlit("rc");
    reveal_strlit("fti");
    if a != b && layer_name(a) == layer_name(b) {
        assert(layer_name(a).len() == layer_name(b).len());
        assert(layer_name(a)[0] == layer_name(b)[0]);
        assert(layer_name(a)[1] == layer_name(b)[1]);
    }
}

} // verus!
