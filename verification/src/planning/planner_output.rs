//! The writer planner's structured output and the contract that validates it.
use crate::text::{blank, byte_len, is_blank, push_decimal, decimal};
use vstd::prelude::*;

verus! {

pub const WRITER_PLANNER_CONTRACT_NAME: &'static str = "writer_planner_output.v2";

/// Limits the planner output is held to.
#[derive(Debug, Clone, Copy, PartialEq, Eq)]
pub struct PlannerConfig {
    pub max_goal_bytes: usize,
    pub max_context_gaps: usize,
    pub max_character_think_requests: usize,
    pub max_reason_bytes: usize,
    pub max_player_contribution_units: usize,
    pub max_interpreted_player_contribution_bytes: usize,
}

/// Limits of the retrieval stage.
#[derive(Debug, Clone, Copy, PartialEq, Eq)]
pub struct RetrievalConfig {
    pub max_requests: usize,
}

#[derive(Debug)]
pub struct WriterPlannerOutputDto {
    pub interpreted_player_contribution: InterpretedPlayerContributionDto,
    pub story_goal: String,
    pub writer_context_gaps: Vec<PlannerWriterContextGapDto>,
    pub character_context_gaps: Vec<PlannerCharacterContextGapDto>,
    pub character_think_requests: Vec<CharacterThinkRequestDto>,
}

#[derive(Debug)]
pub struct InterpretedPlayerContributionDto {
    pub units: Vec<PlayerContributionUnitDto>,
}

#[derive(Debug)]
pub struct PlayerContributionUnitDto {
    pub kind: PlayerContributionKindDto,
    pub content: String,
}

#[derive(Debug, Clone, Copy, PartialEq, Eq)]
pub enum PlayerContributionKindDto {
    Speech,
    Action,
    PrivateState,
    RequestedOutcome,
}

#[derive(Debug)]
pub struct PlannerWriterContextGapDto {
    pub target_id: String,
    pub reason: String,
}

#[derive(Debug)]
pub struct PlannerCharacterContextGapDto {
    pub role_id: String,
    pub target_id: String,
    pub reason: String,
}

#[derive(Debug)]
pub struct CharacterThinkRequestDto {
    pub role_id: String,
    pub reason: String,
}

/// A rejection of a model output by a named output contract.
#[derive(Debug, Clone, PartialEq, Eq)]
pub struct LlmOutputViolation {
    pub contract: &'static str,
    pub reason: &'static str,
}

/// The output contract of the writer planner: its name, the compact shape
/// shown to the model, and the limits its validation enforces.
#[derive(Debug, Clone)]
pub struct WriterPlannerContract {
    pub name: &'static str,
    pub compact_prompt_shape: String,
    pub config: PlannerConfig,
}

pub open spec fn units_bytes(units: Seq<PlayerContributionUnitDto>) -> nat
    decreases units.len(),
{
    if units.len() == 0 {
        0
    } else {
        units_bytes(units.drop_last()) + byte_len(units.last().content@)
    }
}

/// A count as `usize::saturating_add` accumulates it.
pub open spec fn saturated(n: nat) -> nat {
    if n > usize::MAX {
        usize::MAX as nat
    } else {
        n
    }
}

pub open spec fn writer_gap_bad(g: PlannerWriterContextGapDto, max_reason_bytes: usize) -> bool {
    blank(g.target_id@) || blank(g.reason@) || byte_len(g.reason@) > max_reason_bytes
}

pub open spec fn character_gap_bad(g: PlannerCharacterContextGapDto, max_reason_bytes: usize) -> bool {
    blank(g.role_id@) || blank(g.target_id@) || blank(g.reason@) || byte_len(g.reason@) > max_reason_bytes
}

pub open spec fn think_request_bad(r: CharacterThinkRequestDto, max_reason_bytes: usize) -> bool {
    blank(r.role_id@) || blank(r.reason@) || byte_len(r.reason@) > max_reason_bytes
}

/// The reason the writer planner contract rejects `dto`, if any: the checks
/// run in this order and the first that fails is reported.
pub open spec fn writer_output_violation(dto: WriterPlannerOutputDto, c: PlannerConfig) -> Option<&'static str> {
    let units = dto.interpreted_player_contribution.units@;
    if units.len() == 0 || units.len() > c.max_player_contribution_units {
        Some("interpreted_player_contribution unit count exceeds the configured bounds")
    } else if exists|i: int| 0 <= i < units.len() && blank(#[trigger] units[i].content@) {
        Some("interpreted_player_contribution unit content must be non-empty")
    } else if saturated(units_bytes(units)) > c.max_interpreted_player_contribution_bytes {
        Some("interpreted_player_contribution content exceeds the configured byte budget")
    } else if blank(dto.story_goal@) || byte_len(dto.story_goal@) > c.max_goal_bytes {
        Some("story_goal must be trim-non-empty and within the configured byte budget")
    } else if dto.writer_context_gaps@.len() > c.max_context_gaps || dto.character_context_gaps@.len()
        > c.max_context_gaps {
        Some("context gap count exceeds the configured maximum")
    } else if dto.character_think_requests@.len() > c.max_character_think_requests {
        Some("character think request count exceeds the configured maximum")
    } else if exists|i: int|
        0 <= i < dto.writer_context_gaps@.len() && writer_gap_bad(
            #[trigger] dto.writer_context_gaps@[i],
            c.max_reason_bytes,
        ) {
        Some("writer context gap has an empty or oversized field")
    } else if exists|i: int|
        0 <= i < dto.character_context_gaps@.len() && character_gap_bad(
            #[trigger] dto.character_context_gaps@[i],
            c.max_reason_bytes,
        ) {
        Some("character context gap has an empty or oversized field")
    } else if exists|i: int|
        0 <= i < dto.character_think_requests@.len() && think_request_bad(
            #[trigger] dto.character_think_requests@[i],
            c.max_reason_bytes,
        ) {
        Some("character think request has an empty or oversized field")
    } else {
        None
    }
}

fn violation(reason: &'static str) -> (r: Result<(), LlmOutputViolation>)
    ensures
        r == Err::<(), LlmOutputViolation>(LlmOutputViolation { contract: WRITER_PLANNER_CONTRACT_NAME, reason }),
{
    Err(LlmOutputViolation { contract: WRITER_PLANNER_CONTRACT_NAME, reason })
}

/// Checks a planner output against the configured limits; on rejection the
/// violation names the first failed check.
#[verifier::loop_isolation(false)]
pub fn validate_writer_planner_output(
    dto: &WriterPlannerOutputDto,
    max_goal_bytes: usize,
    max_context_gaps: usize,
    max_character_think_requests: usize,
    max_reason_bytes: usize,
    max_player_contribution_units: usize,
    max_interpreted_player_contribution_bytes: usize,
) -> (r: Result<(), LlmOutputViolation>)
    ensures
        ({
            let c = PlannerConfig {
                max_goal_bytes,
                max_context_gaps,
                max_character_think_requests,
                max_reason_bytes,
                max_player_contribution_units,
                max_interpreted_player_contribution_bytes,
            };
            match writer_output_violation(*dto, c) {
                None => r is Ok,
                Some(reason) => r == Err::<(), LlmOutputViolation>(
                    LlmOutputViolation { contract: WRITER_PLANNER_CONTRACT_NAME, reason },
                ),
            }
        }),
{
    let units = &dto.interpreted_player_contribution.units;
    if units.len() == 0 || units.len() > max_player_contribution_units {
        return violation("interpreted_player_contribution unit count exceeds the configured bounds");
    }
    let mut i: usize = 0;
    while i < units.len()
        invariant
            i <= units@.len(),
            forall|j: int| 0 <= j < i ==> !blank(#[trigger] units@[j].content@),
        decreases units@.len() - i,
    {
        if is_blank(units[i].content.as_str()) {
            assert(blank(units@[i as int].content@));
            return violation("interpreted_player_contribution unit content must be non-empty");
        }
        i = i + 1;
    }
    // saturating sum of the unit byte lengths
    let mut total: usize = 0;
    let mut i: usize = 0;
    while i < units.len()
        invariant
            i <= units@.len(),
            total == if units_bytes(units@.take(i as int)) > usize::MAX {
                usize::MAX as nat
            } else {
                units_bytes(units@.take(i as int))
            },
        decreases units@.len() - i,
    {
        assert(units@.take(i + 1).drop_last() =~= units@.take(i as int));
        let n = units[i].content.as_str().len();
        total = total.saturating_add(n);
        i = i + 1;
    }
    assert(units@.take(units@.len() as int) =~= units@);
    if total > max_interpreted_player_contribution_bytes {
        return violation("interpreted_player_contribution content exceeds the configured byte budget");
    }
    if is_blank(dto.story_goal.as_str()) || dto.story_goal.as_str().len() > max_goal_bytes {
        return violation("story_goal must be trim-non-empty and within the configured byte budget");
    }
    if dto.writer_context_gaps.len() > max_context_gaps || dto.character_context_gaps.len() > max_context_gaps {
        return violation("context gap count exceeds the configured maximum");
    }
    if dto.character_think_requests.len() > max_character_think_requests {
        return violation("character think request count exceeds the configured maximum");
    }
    let gaps = &dto.writer_context_gaps;
    let mut i: usize = 0;
    while i < gaps.len()
        invariant
            i <= gaps@.len(),
            forall|j: int| 0 <= j < i ==> !writer_gap_bad(#[trigger] gaps@[j], max_reason_bytes),
        decreases gaps@.len() - i,
    {
        let g = &gaps[i];
        if is_blank(g.target_id.as_str()) || is_blank(g.reason.as_str()) || g.reason.as_str().len()
            > max_reason_bytes {
            assert(writer_gap_bad(gaps@[i as int], max_reason_bytes));
            return violation("writer context gap has an empty or oversized field");
        }
        i = i + 1;
    }
    let gaps = &dto.character_context_gaps;
    let mut i: usize = 0;
    while i < gaps.len()
        invariant
            i <= gaps@.len(),
            forall|j: int| 0 <= j < i ==> !character_gap_bad(#[trigger] gaps@[j], max_reason_bytes),
        decreases gaps@.len() - i,
    {
        let g = &gaps[i];
        if is_blank(g.role_id.as_str()) || is_blank(g.target_id.as_str()) || is_blank(g.reason.as_str())
            || g.reason.as_str().len() > max_reason_bytes {
            assert(character_gap_bad(gaps@[i as int], max_reason_bytes));
            return violation("character context gap has an empty or oversized field");
        }
        i = i + 1;
    }
    let requests = &dto.character_think_requests;
    let mut i: usize = 0;
    while i < requests.len()
        invariant
            i <= requests@.len(),
            forall|j: int| 0 <= j < i ==> !think_request_bad(#[trigger] requests@[j], max_reason_bytes),
        decreases requests@.len() - i,
    {
        let q = &requests[i];
        if is_blank(q.role_id.as_str()) || is_blank(q.reason.as_str()) || q.reason.as_str().len()
            > max_reason_bytes {
            assert(think_request_bad(requests@[i as int], max_reason_bytes));
            return violation("character think request has an empty or oversized field");
        }
        i = i + 1;
    }
    Ok(())
}

impl WriterPlannerContract {
    /// Runs the contract's validation on a planner output.
    pub fn validate(&self, dto: &WriterPlannerOutputDto) -> (r: Result<(), LlmOutputViolation>)
        ensures
            match writer_output_violation(*dto, self.config) {
                None => r is Ok,
                Some(reason) => r == Err::<(), LlmOutputViolation>(
                    LlmOutputViolation { contract: self.name, reason },
                ),
            },
    {
        let c = self.config;
        match validate_writer_planner_output(
            dto,
            c.max_goal_bytes,
            c.max_context_gaps,
            c.max_character_think_requests,
            c.max_reason_bytes,
            c.max_player_contribution_units,
            c.max_interpreted_player_contribution_bytes,
        ) {
            Ok(()) => Ok(()),
            Err(v) => Err(LlmOutputViolation { contract: self.name, reason: v.reason }),
        }
    }
}

/// The compact prompt shape with the configured limits filled in.
pub open spec fn compact_prompt_shape(c: PlannerConfig) -> Seq<char> {
    "Return exactly one JSON object: {\"interpreted_player_contribution\": {\"units\": array (required, 1.."@
        + decimal(c.max_player_contribution_units as nat)
        + " ordered items; each {\"kind\": one of speech/action/private_state/requested_outcome, \"content\": non-empty string}; aggregate content <= "@
        + decimal(c.max_interpreted_player_contribution_bytes as nat)
        + " bytes)}, \"story_goal\": string (required, non-empty, <= "@ + decimal(c.max_goal_bytes as nat)
        + " bytes), \"writer_context_gaps\": array (<= "@ + decimal(c.max_context_gaps as nat)
        + " items, each {\"target_id\": string, \"reason\": string}), \"character_context_gaps\": array (<= "@
        + decimal(c.max_context_gaps as nat)
        + " items, each {\"role_id\": string, \"target_id\": string, \"reason\": string}), \"character_think_requests\": array (<= "@
        + decimal(c.max_character_think_requests as nat)
        + " items, each {\"role_id\": string, \"reason\": string})}. No other fields, no prose outside the object."@
}

pub fn writer_planner_compact_prompt_shape(config: &PlannerConfig) -> (r: String)
    ensures
        r@ == compact_prompt_shape(*config),
{
    let mut s = String::new();
    s.append("Return exactly one JSON object: {\"interpreted_player_contribution\": {\"units\": array (required, 1..");
    push_decimal(&mut s, config.max_player_contribution_units as u64);
    s.append(" ordered items; each {\"kind\": one of speech/action/private_state/requested_outcome, \"content\": non-empty string}; aggregate content <= ");
    push_decimal(&mut s, config.max_interpreted_player_contribution_bytes as u64);
    s.append(" bytes)}, \"story_goal\": string (required, non-empty, <= ");
    push_decimal(&mut s, config.max_goal_bytes as u64);
    s.append(" bytes), \"writer_context_gaps\": array (<= ");
    push_decimal(&mut s, config.max_context_gaps as u64);
    s.append(" items, each {\"target_id\": string, \"reason\": string}), \"character_context_gaps\": array (<= ");
    push_decimal(&mut s, config.max_context_gaps as u64);
    s.append(" items, each {\"role_id\": string, \"target_id\": string, \"reason\": string}), \"character_think_requests\": array (<= ");
    push_decimal(&mut s, config.max_character_think_requests as u64);
    s.append(" items, each {\"role_id\": string, \"reason\": string})}. No other fields, no prose outside the object.");
    assert(s@ =~= compact_prompt_shape(*config));
    s
}

/// The writer planner's output contract for the given limits.
pub fn writer_planner_contract(config: &PlannerConfig) -> (r: WriterPlannerContract)
    ensures
        r.name == WRITER_PLANNER_CONTRACT_NAME,
        r.compact_prompt_shape@ == compact_prompt_shape(*config),
        r.config == *config,
{
    WriterPlannerContract {
        name: WRITER_PLANNER_CONTRACT_NAME,
        compact_prompt_shape: writer_planner_compact_prompt_shape(config),
        config: *config,
    }
}


/// Law: the writer planner contract accepts an output exactly when it
/// keeps every bound: between one and the configured number of player
/// contribution units, none blank, their content within the byte budget
/// (counted saturating at the largest `usize`); a
/// story goal that is not blank and within its budget; no more context gaps
/// or think requests than configured; and every gap and think request with
/// its fields filled and its reason within budget.
pub proof fn law_accepted_outputs_keep_every_bound(dto: WriterPlannerOutputDto, c: PlannerConfig)
    ensures
        writer_output_violation(dto, c) is None <==> {
            let units = dto.interpreted_player_contribution.units@;
            &&& 0 < units.len() <= c.max_player_contribution_units
            &&& forall|i: int| 0 <= i < units.len() ==> !blank(#[trigger] units[i].content@)
            &&& saturated(units_bytes(units)) <= c.max_interpreted_player_contribution_bytes
            &&& !blank(dto.story_goal@)
            &&& byte_len(dto.story_goal@) <= c.max_goal_bytes
            &&& dto.writer_context_gaps@.len() <= c.max_context_gaps
            &&& dto.character_context_gaps@.len() <= c.max_context_gaps
            &&& dto.character_think_requests@.len() <= c.max_character_think_requests
            &&& forall|i: int|
                0 <= i < dto.writer_context_gaps@.len() ==> {
                    let g = #[trigger] dto.writer_context_gaps@[i];
                    !blank(g.target_id@) && !blank(g.reason@) && byte_len(g.reason@) <= c.max_reason_bytes
                }
            &&& forall|i: int|
                0 <= i < dto.character_context_gaps@.len() ==> {
                    let g = #[trigger] dto.character_context_gaps@[i];
                    !blank(g.role_id@) && !blank(g.target_id@) && !blank(g.reason@) && byte_len(g.reason@)
                        <= c.max_reason_bytes
                }
            &&& forall|i: int|
                0 <= i < dto.character_think_requests@.len() ==> {
                    let r = #[trigger] dto.character_think_requests@[i];
                    !blank(r.role_id@) && !blank(r.reason@) && byte_len(r.reason@) <= c.max_reason_bytes
                }
        },
{
    let units = dto.interpreted_player_contribution.units@;
    if writer_output_violation(dto, c) is None {
        assert forall|i: int| 0 <= i < dto.writer_context_gaps@.len() implies {
            let g = #[trigger] dto.writer_context_gaps@[i];
            !blank(g.target_id@) && !blank(g.reason@) && byte_len(g.reason@) <= c.max_reason_bytes
        } by {
            assert(!writer_gap_bad(dto.writer_context_gaps@[i], c.max_reason_bytes));
        }
        assert forall|i: int| 0 <= i < dto.character_context_gaps@.len() implies {
            let g = #[trigger] dto.character_context_gaps@[i];
            !blank(g.role_id@) && !blank(g.target_id@) && !blank(g.reason@) && byte_len(g.reason@) <= c.max_reason_bytes
        } by {
            assert(!character_gap_bad(dto.character_context_gaps@[i], c.max_reason_bytes));
        }
        assert forall|i: int| 0 <= i < dto.character_think_requests@.len() implies {
            let r = #[trigger] dto.character_think_requests@[i];
            !blank(r.role_id@) && !blank(r.reason@) && byte_len(r.reason@) <= c.max_reason_bytes
        } by {
            assert(!think_request_bad(dto.character_think_requests@[i], c.max_reason_bytes));
        }
    }
}

} // verus!
