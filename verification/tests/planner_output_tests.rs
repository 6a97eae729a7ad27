use aise::planning::planner_output::{
    writer_planner_contract, CharacterThinkRequestDto, InterpretedPlayerContributionDto, PlannerConfig,
    PlannerWriterContextGapDto, PlayerContributionKindDto, PlayerContributionUnitDto, WriterPlannerOutputDto,
};

fn planner_config() -> PlannerConfig {
    PlannerConfig {
        max_goal_bytes: 1024,
        max_context_gaps: 16,
        max_character_think_requests: 8,
        max_reason_bytes: 512,
        max_player_contribution_units: 8,
        max_interpreted_player_contribution_bytes: 4096,
    }
}

fn valid_dto() -> WriterPlannerOutputDto {
    WriterPlannerOutputDto {
        interpreted_player_contribution: InterpretedPlayerContributionDto {
            units: vec![PlayerContributionUnitDto {
                kind: PlayerContributionKindDto::PrivateState,
                content: "player feels afraid".to_owned(),
            }],
        },
        story_goal: "advance the plot".to_owned(),
        writer_context_gaps: vec![PlannerWriterContextGapDto {
            target_id: "fact_0001".to_owned(),
            reason: "needed for continuity".to_owned(),
        }],
        character_context_gaps: vec![],
        character_think_requests: vec![CharacterThinkRequestDto {
            role_id: "npc_guard".to_owned(),
            reason: "reacts to player".to_owned(),
        }],
    }
}

#[test]
fn contract_validate_accepts_well_formed_output() {
    let config = planner_config();
    let contract = writer_planner_contract(&config);
    assert!(contract.validate(&valid_dto()).is_ok());
}

#[test]
fn contract_validate_rejects_empty_story_goal() {
    let config = planner_config();
    let contract = writer_planner_contract(&config);
    let mut dto = valid_dto();
    dto.story_goal = "   ".to_owned();
    assert!(contract.validate(&dto).is_err());
}

#[test]
fn contract_validate_rejects_oversized_story_goal() {
    let config = PlannerConfig { max_goal_bytes: 4, ..planner_config() };
    let contract = writer_planner_contract(&config);
    let mut dto = valid_dto();
    dto.story_goal = "way too long".to_owned();
    assert!(contract.validate(&dto).is_err());
}

#[test]
fn contract_validate_rejects_too_many_context_gaps() {
    let config = PlannerConfig { max_context_gaps: 1, ..planner_config() };
    let contract = writer_planner_contract(&config);
    let mut dto = valid_dto();
    dto.writer_context_gaps.push(PlannerWriterContextGapDto {
        target_id: "fact_0002".to_owned(),
        reason: "second gap".to_owned(),
    });
    assert!(contract.validate(&dto).is_err());
}

#[test]
fn contract_validate_rejects_empty_gap_fields() {
    let config = planner_config();
    let contract = writer_planner_contract(&config);
    let mut dto = valid_dto();
    dto.writer_context_gaps[0].reason = String::new();
    assert!(contract.validate(&dto).is_err());
}

#[test]
fn contract_validate_rejects_empty_character_think_request_fields() {
    let config = planner_config();
    let contract = writer_planner_contract(&config);
    let mut dto = valid_dto();
    dto.character_think_requests[0].role_id = String::new();
    assert!(contract.validate(&dto).is_err());
}
