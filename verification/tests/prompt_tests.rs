use aise::domain::{BoundedText, KnowledgeSourceId, RoleId};
use aise::prompt::asset::{compute_asset_hash, PromptAssetManifest};
use aise::prompt::catalog::{normalize_line_endings, normalize_rendered_text, rendered_text};
use aise::prompt::composition::{assemble_composition, layer_error, PromptLayer};
use aise::prompt::metadata::PromptMetadata;
use aise::prompt::runtime_context_encoder::RuntimeContextEncoder;
use aise::prompt::error::PromptError;
use aise::prompt::knowledge_view::{
    merge_world_knowledge, render_relevant_knowledge, render_role_knowledge, world_knowledge_view_from_baseline,
    PromptProjectionError, RoleKnowledgePromptView, WorldKnowledgePromptView,
};
use aise::prompt::model::{
    AssetRef, AssetStatus, PromptKind, PromptLineageNode, PromptMessage, PromptRole, RenderedPrompt, SlotId,
};
use aise::prompt::narrative_direction::{project_narrative_direction, render_narrative_direction};
use aise::prompt::pack::{resolve_pack, PromptPack};
use aise::prompt::player_contribution::render_interpreted_player_contribution;
use aise::prompt::policy::{apply_policies, PreamblePosition, PromptPolicy};
use aise::prompt::profile::{PromptProfile, PromptProfileAssets, PromptProfileRegistry, TrustedSystemPrompt};
use aise::prompt::resolver::{parse_asset_ref, PromptRenderOptions, PromptResolver};
use aise::prompt::section_extractor::{asset_marker_payloads, extract_asset_sections, SectionMetadata};
use aise::prompt::slot::{build_slot_registry, SlotSpec};
use aise::prompt::story_profile_view::{render_story_profile_view, StoryProfilePromptView};
use aise::turn::{
    InterpretedPlayerContribution, NarrativeDirection, NarrativeParticipant, NarrativePlan, PlayerContributionKind,
    PlayerContributionUnit, RelevantWorldKnowledge, RetrievedKnowledgeItem, RetrievedWorldKnowledge, StoryProfile,
    StoryStyle, WorldEventIntent, WorldKnowledgeEntry,
};

fn text(value: &str) -> BoundedText {
    BoundedText::try_new(value.to_owned(), "text", 256).unwrap()
}

fn fact(id: &str) -> KnowledgeSourceId {
    KnowledgeSourceId::Fact(id.to_owned())
}

#[test]
fn story_profile_lists_only_present_lists() {
    let profile = StoryProfile {
        language: text("en"),
        genre: vec![text("mystery"), text("noir")],
        themes: Vec::new(),
        style: StoryStyle { tone: vec![text("dry")], point_of_view: text("first"), tense: text("present") },
    };
    let view = StoryProfilePromptView::new(&text("Case"), &profile);
    assert_eq!(
        render_story_profile_view(&view),
        "title: \"Case\"\nlanguage: \"en\"\ngenre: [\"mystery\", \"noir\"]\ntone: [\"dry\"]\npoint_of_view: \"first\"\ntense: \"present\""
    );
}

#[test]
fn narrative_direction_renders_directions_and_intents() {
    let mut plan = NarrativePlan::empty();
    plan.active_directions = vec![NarrativeDirection { dramatic_focus: text("raise the stakes") }];
    plan.world_event_intents = vec![WorldEventIntent {
        category: text("storm"),
        participants: vec![
            NarrativeParticipant::Role(RoleId::try_new("guard".to_owned()).unwrap()),
            NarrativeParticipant::Location("harbor".to_owned()),
        ],
        location: Some("harbor".to_owned()),
        description: text("a storm breaks"),
    }];
    let view = project_narrative_direction(&plan);
    assert!(!view.is_empty());
    assert_eq!(
        render_narrative_direction(&view),
        "### Active Directions\n\n- raise the stakes\n\n### World Event Intents\n\n- category: \"storm\"\n  participants: [\"role:guard\", \"location:harbor\"]\n  location: \"harbor\"\n  description: \"a storm breaks\""
    );
    assert_eq!(render_narrative_direction(&project_narrative_direction(&NarrativePlan::empty())), "");
}

#[test]
fn world_knowledge_merge_keeps_first_of_each_id_in_order() {
    let baseline = RelevantWorldKnowledge {
        facts: vec![
            WorldKnowledgeEntry { source_id: fact("fact_0002"), content: text("the bridge is old") },
            WorldKnowledgeEntry { source_id: fact("fact_0001"), content: text("the moon is full") },
        ],
        rumors: Vec::new(),
    };
    let retrieved = RetrievedWorldKnowledge {
        facts: vec![
            RetrievedKnowledgeItem { source_id: fact("fact_0001"), content: text("the moon is full") },
            RetrievedKnowledgeItem { source_id: fact("fact_0003"), content: text("wolves howl") },
        ],
        rumors: vec![RetrievedKnowledgeItem {
            source_id: KnowledgeSourceId::Rumor("rumor_0001".to_owned()),
            content: text("the mayor lies"),
        }],
    };
    let merged = merge_world_knowledge(&baseline, &retrieved).unwrap();
    let facts: Vec<&str> = merged.facts.iter().map(|f| f.as_str()).collect();
    assert_eq!(facts, vec!["the bridge is old", "the moon is full", "wolves howl"]);
    assert_eq!(merged.rumors.len(), 1);
    assert_eq!(
        render_relevant_knowledge(&merged),
        "### Facts\n\n- \"the bridge is old\"\n- \"the moon is full\"\n- \"wolves howl\"\n\n### Rumors\n\n- \"the mayor lies\""
    );
    let unmerged = world_knowledge_view_from_baseline(&baseline);
    assert_eq!(unmerged.facts.len(), 2);
}

#[test]
fn world_knowledge_merge_refuses_conflicting_contents() {
    let baseline = RelevantWorldKnowledge {
        facts: vec![WorldKnowledgeEntry { source_id: fact("fact_0001"), content: text("the moon is full") }],
        rumors: Vec::new(),
    };
    let retrieved = RetrievedWorldKnowledge {
        facts: vec![RetrievedKnowledgeItem { source_id: fact("fact_0001"), content: text("the moon is new") }],
        rumors: Vec::new(),
    };
    match merge_world_knowledge(&baseline, &retrieved) {
        Err(PromptProjectionError::IdConflict { id }) => assert_eq!(id, "fact_0001"),
        _ => panic!("expected a conflict"),
    }
}

#[test]
fn knowledge_views_render_empty_sections_as_nothing() {
    let empty = WorldKnowledgePromptView { facts: Vec::new(), rumors: Vec::new() };
    assert_eq!(render_relevant_knowledge(&empty), "");
    let role = RoleKnowledgePromptView { known_rumors: Vec::new(), memories: vec![text("I saw her")] };
    assert_eq!(render_role_knowledge(&role), "### Memories\n\n- \"I saw her\"");
}

#[test]
fn player_contribution_lists_units() {
    let value = InterpretedPlayerContribution {
        units: vec![
            PlayerContributionUnit { kind: PlayerContributionKind::Speech, content: text("hello") },
            PlayerContributionUnit { kind: PlayerContributionKind::PrivateState, content: text("afraid") },
        ],
    };
    assert_eq!(
        render_interpreted_player_contribution(&value),
        "- kind: speech\n  content: \"hello\"\n- kind: private_state\n  content: \"afraid\""
    );
}

#[test]
fn preamble_policies_wrap_text() {
    let prepend = PromptPolicy::Preamble {
        name: "safety".to_owned(),
        content: "Be kind.".to_owned(),
        position: PreamblePosition::Prepend,
    };
    let append = PromptPolicy::Preamble {
        name: "sign".to_owned(),
        content: "-- end".to_owned(),
        position: PreamblePosition::Append,
    };
    let guard = PromptPolicy::RuntimeGuard { name: "guard".to_owned(), description: "d".to_owned() };
    assert_eq!(prepend.apply_to_text("body").as_deref(), Some("Be kind.\nbody"));
    assert_eq!(append.apply_to_text("body").as_deref(), Some("body\n-- end"));
    assert_eq!(guard.apply_to_text("body"), None);
    assert_eq!(guard.name(), "guard");
}

fn assets(csi: &str, rc: &str, fti: &str) -> PromptProfileAssets {
    PromptProfileAssets {
        csi_slot: SlotId::new(csi.to_owned()),
        rc_slot: SlotId::new(rc.to_owned()),
        fti_slot: SlotId::new(fti.to_owned()),
    }
}

#[test]
fn profile_registry_reads_back_and_refuses_duplicates() {
    let mut registry = PromptProfileRegistry::new();
    assert!(matches!(
        registry.assets_for(PromptProfile::WriterPlanner),
        Err(PromptError::ProfileNotRegistered(name)) if name == "writer_planner"
    ));
    registry.register(PromptProfile::WriterPlanner, assets("a.csi", "a.rc", "a.fti")).unwrap();
    assert_eq!(registry.assets_for(PromptProfile::WriterPlanner).unwrap().rc_slot.as_str(), "a.rc");
    assert!(matches!(
        registry.register(PromptProfile::WriterPlanner, assets("b.csi", "b.rc", "b.fti")),
        Err(PromptError::DuplicateProfileRegistration(name)) if name == "writer_planner"
    ));
    assert!(matches!(
        registry.register(PromptProfile::CharacterThink, assets("x", "y", "y")),
        Err(PromptError::DuplicateLayerSlot { slot, .. }) if slot == "y"
    ));
    assert!(matches!(
        registry.register(PromptProfile::StoryGenerator, assets("x", "y", "x")),
        Err(PromptError::DuplicateLayerSlot { slot, .. }) if slot == "x"
    ));
    assert_eq!(PromptProfile::StoryRepairer.as_str(), "story_repairer");
    assert_eq!(TrustedSystemPrompt::try_new("sys".to_owned()).unwrap().as_str(), "sys");
}

#[test]
fn asset_refs_must_be_bare_ids() {
    assert_eq!(parse_asset_ref("writer.csi").unwrap().as_str(), "writer.csi");
    assert!(matches!(parse_asset_ref("  "), Err(PromptError::AssetNotFound(m)) if m == "asset ref cannot be empty"));
    assert!(matches!(
        parse_asset_ref("writer@2"),
        Err(PromptError::AssetNotFound(m)) if m == "asset ref `writer@2` must be a bare `asset_id` without a revision suffix"
    ));
}

fn pack(name: &str, extends: Option<&str>, slots: &[(&str, &str)]) -> PromptPack {
    PromptPack {
        name: name.to_owned(),
        extends: extends.map(|p| p.to_owned()),
        slots: slots.iter().map(|(s, a)| (SlotId::new((*s).to_owned()), AssetRef::new((*a).to_owned()))).collect(),
    }
}

#[test]
fn packs_inherit_slots_and_own_slots_win() {
    let packs = vec![
        pack("base", None, &[("a", "base.a"), ("b", "base.b")]),
        pack("child", Some("base"), &[("b", "child.b")]),
    ];
    let resolved = resolve_pack("child", &packs).unwrap();
    assert_eq!(resolved.extends_chain, vec!["child".to_owned(), "base".to_owned()]);
    let resolver = PromptResolver { default_pack: "child".to_owned() };
    let selection = resolver
        .resolve_selection("b", &PromptRenderOptions::with_pack_override(None), &vec![resolved.clone()])
        .unwrap();
    assert_eq!(selection.asset_id.as_str(), "child.b");
    assert_eq!(selection.selection_reason, "default");
    let selection = resolver
        .resolve_selection("a", &PromptRenderOptions::with_pack_override(None), &vec![resolved.clone()])
        .unwrap();
    assert_eq!(selection.asset_id.as_str(), "base.a");
    assert!(matches!(
        resolver.resolve_selection("zzz", &PromptRenderOptions::with_pack_override(None), &vec![resolved.clone()]),
        Err(PromptError::SlotNotFound(m)) if m == "slot `zzz` not found in pack `child`"
    ));
    assert!(matches!(
        resolver.resolve_selection("a", &PromptRenderOptions::with_pack_override(Some("other".to_owned())), &vec![resolved]),
        Err(PromptError::PackNotFound(m)) if m == "other"
    ));
}

#[test]
fn pack_inheritance_refuses_cycles_depth_and_missing_parents() {
    let cyclic = vec![pack("a", Some("b"), &[]), pack("b", Some("a"), &[])];
    assert!(matches!(
        resolve_pack("a", &cyclic),
        Err(PromptError::InheritanceCycleOrDepthExceeded(m)) if m == "cycle detected: a already in chain [\"a\", \"b\"]"
    ));
    let deep = vec![
        pack("p1", Some("p2"), &[]),
        pack("p2", Some("p3"), &[]),
        pack("p3", Some("p4"), &[]),
        pack("p4", Some("p5"), &[]),
        pack("p5", None, &[]),
    ];
    assert!(matches!(
        resolve_pack("p1", &deep),
        Err(PromptError::InheritanceCycleOrDepthExceeded(m)) if m == "max depth 4 exceeded at pack `p5`"
    ));
    let orphan = vec![pack("a", Some("missing"), &[])];
    assert!(matches!(resolve_pack("a", &orphan), Err(PromptError::PackNotFound(m)) if m == "missing"));
}

fn slot(id: &str, structured: bool) -> SlotSpec {
    SlotSpec {
        slot_id: SlotId::new(id.to_owned()),
        allowed_kinds: vec![PromptKind::Text],
        required: true,
        structured_output: structured,
        output_contract_required: false,
        optimizable: structured,
        allow_child_render: false,
        notes: None,
        vars: Vec::new(),
        output_contract: None,
    }
}

#[test]
fn slot_registry_refuses_unsupported_options_and_duplicates() {
    let ok = build_slot_registry(vec![slot("a", false), slot("b", false)]).unwrap();
    assert_eq!(ok.len(), 2);
    assert!(ok[0].accepts_kind(&PromptKind::Text));
    assert!(!ok[0].accepts_kind(&PromptKind::Messages));
    assert!(matches!(
        build_slot_registry(vec![slot("a", true)]),
        Err(PromptError::CatalogLoad(m)) if m == "slot `a` uses unsupported options: structured_output, optimizable"
    ));
    assert!(matches!(
        build_slot_registry(vec![slot("a", false), slot("a", false)]),
        Err(PromptError::CatalogLoad(m)) if m == "duplicate slot_id `a` in slots.yaml"
    ));
}

fn manifest(kind: PromptKind, schema: Option<&str>) -> PromptAssetManifest {
    PromptAssetManifest {
        asset_id: AssetRef::new("asset.one".to_owned()),
        kind,
        source_path: "prompts/one.md.j2".to_owned(),
        input_schema_ref: schema.map(|s| s.to_owned()),
        output_contract_ref: None,
        labels: Vec::new(),
        hash: None,
        status: AssetStatus::Active,
    }
}

#[test]
fn asset_hash_is_sha256_of_normalized_template_and_identity() {
    assert_eq!(
        compute_asset_hash("line one  \nline two\n", &manifest(PromptKind::Text, None)),
        "sha256:0c0a301a21ff78f665da0725749ee7e9be6d390734e7e6b52e0557e6ccf07c1a"
    );
    assert_eq!(
        compute_asset_hash("line one\t\r\nline two", &manifest(PromptKind::Messages, Some("schema.v1"))),
        "sha256:b83ac7e612a57d622e9cd410609747139553432aeef558cfb3e40d2a7bc765d7"
    );
}

fn metadata(id: &str, slots: &[&str]) -> Result<SectionMetadata, String> {
    Ok(SectionMetadata { asset_id: id.to_owned(), slot_ids: slots.iter().map(|s| (*s).to_owned()).collect() })
}

#[test]
fn sections_are_extracted_between_markers() {
    let content = "{# @asset {\"asset_id\":\"one\",\"slot_ids\":[\"s1\"]} #}\nHello\n\n{# @endasset #}\n\n{# @asset {\"asset_id\":\"two\",\"slot_ids\":[\"s2\"]} #}\r\nBye\r\n{# @endasset #}\n";
    assert_eq!(asset_marker_payloads(content).len(), 2);
    let sections = extract_asset_sections("t.md", content, &vec![metadata("one", &["s1"]), metadata("two", &["s2"])]).unwrap();
    assert_eq!(sections.len(), 2);
    assert_eq!(sections[0].asset_id.as_str(), "one");
    assert_eq!(sections[0].body, "Hello\n");
    assert_eq!(sections[0].source_anchor, "t.md#one");
    assert_eq!(sections[1].body, "Bye\r\n");
    assert_eq!(sections[1].slot_ids[0].as_str(), "s2");
}

#[test]
fn section_errors_name_the_file_and_line() {
    let open = "{# @asset {} #}\nbody\n";
    assert!(matches!(
        extract_asset_sections("t.md", open, &vec![metadata("one", &["s"])]),
        Err(PromptError::CatalogLoad(m)) if m == "unclosed @asset block for `one` in `t.md` starting at line 1"
    ));
    assert!(matches!(
        extract_asset_sections("t.md", "stray\n", &Vec::new()),
        Err(PromptError::CatalogLoad(m)) if m == "unexpected content outside @asset block in `t.md` at line 1"
    ));
    assert!(matches!(
        extract_asset_sections("t.md", "\n", &Vec::new()),
        Err(PromptError::CatalogLoad(m)) if m == "template `t.md` must use @asset / @endasset sections"
    ));
    assert!(matches!(
        extract_asset_sections("t.md", "{# @endasset #}", &Vec::new()),
        Err(PromptError::CatalogLoad(m)) if m == "unexpected @endasset in `t.md` at line 1"
    ));
    assert!(matches!(
        extract_asset_sections("t.md", "{# @asset #}", &Vec::new()),
        Err(PromptError::CatalogLoad(m)) if m == "`@asset` marker is missing metadata JSON"
    ));
    let nested = "{# @asset {} #}\n{# @asset {} #}\n";
    assert!(matches!(
        extract_asset_sections("t.md", nested, &vec![metadata("one", &["s"]), metadata("two", &["s"])]),
        Err(PromptError::CatalogLoad(m)) if m == "nested @asset block in `t.md` at line 2 while `one` is still open"
    ));
    let twice = "{# @asset {} #}\n{# @endasset #}\n{# @asset {} #}\n{# @endasset #}\n";
    assert!(matches!(
        extract_asset_sections("t.md", twice, &vec![metadata("one", &["s"]), metadata("one", &["s"])]),
        Err(PromptError::CatalogLoad(m)) if m == "duplicate asset section `one` in `t.md`"
    ));
    assert!(matches!(
        extract_asset_sections("t.md", open, &vec![metadata("one", &[])]),
        Err(PromptError::CatalogLoad(m)) if m == "section `one` in `t.md` must declare a non-empty slot_ids array"
    ));
    assert!(matches!(
        extract_asset_sections("t.md", open, &vec![Err("bad json".to_owned())]),
        Err(PromptError::CatalogLoad(m)) if m == "invalid @asset metadata JSON: bad json"
    ));
}

#[test]
fn rendered_text_collapses_blank_runs_and_trims() {
    assert_eq!(normalize_rendered_text("\n\nA\n\n\n  \nB\n\n"), "A\n\nB");
    assert_eq!(normalize_rendered_text("  x  "), "x");
}

#[test]
fn rendered_prompts_expose_their_shape() {
    let text_prompt = RenderedPrompt::Text("hello".to_owned());
    assert_eq!(text_prompt.as_text(), Some("hello"));
    assert!(text_prompt.as_messages().is_none());
    let messages = RenderedPrompt::Messages(vec![PromptMessage { role: PromptRole::User, content: "hi".to_owned() }]);
    assert!(messages.as_text().is_none());
    assert_eq!(messages.as_messages().map(|m| m.len()), Some(1));
}

#[test]
fn runtime_context_is_encoded_as_untrusted_json() {
    let encoder = RuntimeContextEncoder;
    let message = encoder.encode(Ok("{\"scene\":\"dock\"}".to_owned())).unwrap();
    assert_eq!(message.as_str(), "{\"scene\":\"dock\"}");
    assert!(matches!(
        encoder.encode(Err("key must be a string".to_owned())),
        Err(PromptError::RenderError(m)) if m == "context encode failed: key must be a string"
    ));
}

#[test]
fn rendered_line_endings_become_line_feeds() {
    assert_eq!(normalize_line_endings("a\r\nb\rc\n\r\r\n"), "a\nb\nc\n\n\n");
    assert_eq!(normalize_line_endings(""), "");
}

#[test]
fn preambles_apply_in_order_and_are_listed() {
    let policies = vec![
        PromptPolicy::Preamble { name: "first".to_owned(), content: "A".to_owned(), position: PreamblePosition::Prepend },
        PromptPolicy::RuntimeGuard { name: "guard".to_owned(), description: "d".to_owned() },
        PromptPolicy::Preamble { name: "last".to_owned(), content: "Z".to_owned(), position: PreamblePosition::Append },
    ];
    let (text, applied) = apply_policies(&policies, "body".to_owned());
    assert_eq!(text, "A\nbody\nZ");
    assert_eq!(applied, vec!["first".to_owned(), "last".to_owned()]);
}

#[test]
fn messages_are_refused_where_text_is_needed() {
    assert_eq!(rendered_text("slot", RenderedPrompt::Text("a\n\n\nb  ".to_owned())).unwrap(), "a\n\nb");
    assert!(matches!(
        rendered_text("slot", RenderedPrompt::Messages(Vec::new())),
        Err(PromptError::KindMismatch { slot, expected, actual })
            if slot == "slot" && expected == vec![PromptKind::Text, PromptKind::Fragment] && actual == PromptKind::Messages
    ));
}

fn layer_metadata(slot: &str) -> PromptMetadata {
    PromptMetadata {
        slot: SlotId::new(slot.to_owned()),
        pack: "base".to_owned(),
        root: PromptLineageNode { slot: SlotId::new(slot.to_owned()), asset_id: AssetRef::new(slot.to_owned()), hash: None },
        rendered_assets: Vec::new(),
        applied_policies: Vec::new(),
        selection_reason: "default".to_owned(),
        render_duration_ms: 0,
        input_validated: false,
        output_contract_validated: false,
    }
}

#[test]
fn composition_takes_three_text_layers() {
    let composed = assemble_composition(
        PromptProfile::WriterPlanner,
        Ok(("system".to_owned(), layer_metadata("csi"))),
        Ok(("context".to_owned(), layer_metadata("rc"))),
        Ok(("task".to_owned(), layer_metadata("fti"))),
    )
    .unwrap();
    assert_eq!(composed.csi.as_str(), "system");
    assert_eq!(composed.rc.as_str(), "context");
    assert_eq!(composed.fti.as_str(), "task");
    assert_eq!(composed.metadata.fti.slot.as_str(), "fti");
}

#[test]
fn composition_reports_the_first_failing_layer() {
    let mismatch = PromptError::KindMismatch { slot: "rc".to_owned(), expected: vec![PromptKind::Text], actual: PromptKind::Messages };
    let failed = assemble_composition(
        PromptProfile::CharacterThink,
        Ok(("system".to_owned(), layer_metadata("csi"))),
        Err(mismatch),
        Err(PromptError::SlotNotFound("fti".to_owned())),
    );
    assert!(matches!(
        failed,
        Err(PromptError::LayerMustRenderAsText { profile, layer }) if profile == "character_think" && layer == "rc"
    ));
    assert!(matches!(
        layer_error(PromptProfile::WriterPlanner, PromptLayer::Fti, PromptError::SlotNotFound("x".to_owned())),
        PromptError::SlotNotFound(m) if m == "x"
    ));
}

#[test]
fn nested_marker_with_undecodable_metadata_reports_the_metadata() {
    let nested = "{# @asset {} #}\n{# @asset {bad #}\n";
    assert!(matches!(
        extract_asset_sections("t.md", nested, &vec![metadata("one", &["s"]), Err("expected value".to_owned())]),
        Err(PromptError::CatalogLoad(m)) if m == "invalid @asset metadata JSON: expected value"
    ));
}

#[test]
fn json_quoting_escapes_as_serde_json_writes() {
    assert_eq!(aise::json::quote("a\"b\\c\n\u{1}é"), "\"a\\\"b\\\\c\\n\\u0001é\"");
    assert_eq!(aise::json::quote("\u{8}\u{c}\r\t\u{1f}"), "\"\\b\\f\\r\\t\\u001f\"");
    assert_eq!(aise::json::quote(""), "\"\"");
}
