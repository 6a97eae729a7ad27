//! Policies attached to prompt assets.
use crate::text::{contains_text, lemma_contains_at, lemma_contains_within};
use vstd::prelude::*;

verus! {

#[derive(Debug, Clone, Copy, PartialEq, Eq, Structural)]
pub enum PreamblePosition {
    Prepend,
    Append,
}

#[derive(Debug, Clone)]
pub enum PromptPolicy {
    /// Text put before or after a rendered prompt.
    Preamble { name: String, content: String, position: PreamblePosition },
    RuntimeGuard { name: String, description: String },
    PostValidator { name: String },
}

impl PromptPolicy {
    pub open spec fn policy_name(&self) -> Seq<char> {
        match self {
            PromptPolicy::Preamble { name, .. } => name@,
            PromptPolicy::RuntimeGuard { name, .. } => name@,
            PromptPolicy::PostValidator { name } => name@,
        }
    }

    pub fn name(&self) -> (r: &str)
        ensures
            r@ == self.policy_name(),
    {
        match self {
            PromptPolicy::Preamble { name, .. } => name.as_str(),
            PromptPolicy::RuntimeGuard { name, .. } => name.as_str(),
            PromptPolicy::PostValidator { name } => name.as_str(),
        }
    }

    /// A preamble joins its content to the text with a line break, before
    /// or after it; other policies do not change text.
    pub fn apply_to_text(&self, text: &str) -> (r: Option<String>)
        ensures
            match self {
                PromptPolicy::Preamble { content, position, .. } => r matches Some(t) && t@ == (match position {
                    PreamblePosition::Prepend => content@ + "\n"@ + text@,
                    PreamblePosition::Append => text@ + "\n"@ + content@,
                }),
                _ => r is None,
            },
    {
        match self {
            PromptPolicy::Preamble { content, position, .. } => {
                let mut r = String::new();
                match position {
                    PreamblePosition::Prepend => {
                        r.append(content.as_str());
                        r.append("\n");
                        r.append(text);
                    },
                    PreamblePosition::Append => {
                        r.append(text);
                        r.append("\n");
                        r.append(content.as_str());
                    },
                }
                Some(r)
            },
            _ => None,
        }
    }
}

/// Text after the policies in order, and the names of the policies that
/// changed it.
pub open spec fn policies_applied(ps: Seq<PromptPolicy>, text: Seq<char>) -> (Seq<char>, Seq<Seq<char>>)
    decreases ps.len(),
{
    if ps.len() == 0 {
        (text, Seq::empty())
    } else {
        let (t, names) = policies_applied(ps.drop_last(), text);
        match ps.last() {
            PromptPolicy::Preamble { name, content, position } => (
                match position {
                    PreamblePosition::Prepend => content@ + "\n"@ + t,
                    PreamblePosition::Append => t + "\n"@ + content@,
                },
                names.push(name@),
            ),
            _ => (t, names),
        }
    }
}

/// Applies the policies of a catalog to rendered text, in order, and
/// lists the names of those that changed it.
pub fn apply_policies(policies: &Vec<PromptPolicy>, text: String) -> (r: (String, Vec<String>))
    ensures
        (r.0@, r.1@.map_values(|n: String| n@)) == policies_applied(policies@, text@),
{
    let mut out = text;
    let mut applied: Vec<String> = Vec::new();
    let mut i: usize = 0;
    assert(policies@.take(0) =~= Seq::<PromptPolicy>::empty());
    while i < policies.len()
        invariant
            i <= policies@.len(),
            (out@, applied@.map_values(|n: String| n@)) == policies_applied(policies@.take(i as int), text@),
        decreases policies@.len() - i,
    {
        assert(policies@.take(i + 1).drop_last() =~= policies@.take(i as int));
        assert(policies@.take(i + 1).last() == policies@[i as int]);
        match policies[i].apply_to_text(out.as_str()) {
            Some(modified) => {
                out = modified;
                let name = crate::text::owned(policies[i].name());
                applied.push(name);
                assert(applied@.map_values(|n: String| n@) =~= policies_applied(policies@.take(i as int), text@).1.push(
                    policies@[i as int].policy_name(),
                ));
            },
            None => {},
        }
        i = i + 1;
    }
    assert(policies@.take(i as int) =~= policies@);
    (out, applied)
}


/// Law: policies only add to a rendered text: the text is kept whole; each
/// preamble puts its content on its own line before or after the text, as
/// its position says, and is named among the applied policies; other
/// policies change nothing and are not named.
pub proof fn law_policies_keep_the_text(ps: Seq<PromptPolicy>, text: Seq<char>, p: PromptPolicy)
    ensures
        contains_text(policies_applied(ps, text).0, text),
        policies_applied(ps.push(p), text) == match p {
            PromptPolicy::Preamble { name, content, position } => (
                match position {
                    PreamblePosition::Prepend => content@ + "\n"@ + policies_applied(ps, text).0,
                    PreamblePosition::Append => policies_applied(ps, text).0 + "\n"@ + content@,
                },
                policies_applied(ps, text).1.push(name@),
            ),
            _ => policies_applied(ps, text),
        },
    decreases ps.len(),
{
    assert(ps.push(p).drop_last() =~= ps);
    if ps.len() == 0 {
        lemma_contains_at(text, text, 0);
    } else {
        law_policies_keep_the_text(ps.drop_last(), text, ps.last());
        assert(ps.drop_last().push(ps.last()) =~= ps);
        let t = policies_applied(ps.drop_last(), text).0;
        let r = policies_applied(ps, text).0;
        match ps.last() {
            PromptPolicy::Preamble { name, content, position } => match position {
                PreamblePosition::Prepend => {
                    let o = (content@ + "\n"@).len() as int;
                    assert(r.subrange(o, o + t.len()) =~= t);
                    lemma_contains_within(r, o, t, text);
                },
                PreamblePosition::Append => {
                    assert(r.subrange(0, t.len() as int) =~= t);
                    lemma_contains_within(r, 0, t, text);
                },
            },
            _ => {},
        }
    }
}

} // verus!
