use aise::prompt::asset::{compute_asset_hash, PromptAssetManifest};
use aise::prompt::catalog::{finish_render, resolve_slot};
use aise::prompt::error::PromptError;
use aise::prompt::loader::{
    compile_catalog, manifests_by_source_path, template_paths, validate_asset_status, validate_policy_support,
    validate_section_slot_compatibility, validate_sections_for_source, CompiledCatalog, PromptIndex, TemplateFile,
    TemplateText,
};
use aise::prompt::model::{AssetRef, AssetStatus, PromptKind, PromptMessage, PromptRole, RenderedPrompt, SlotId};
use aise::prompt::pack::PromptPack;
use aise::prompt::policy::{PreamblePosition, PromptPolicy};
use aise::prompt::resolver::PromptRenderOptions;
use aise::prompt::section_extractor::{PromptAssetSection, SectionMetadata};
use aise::prompt::slot::{SlotSpec, VarSpec, VarType};

const TEMPLATE: &str = "{# @asset {\"asset_id\":\"writer.csi\",\"slot_ids\":[\"csi\"]} #}\nYou plan.\n{# @endasset #}\n{# @asset {\"asset_id\":\"writer.fti\",\"slot_ids\":[\"fti\"]} #}\nAnswer in JSON.\n{# @endasset #}\n";

fn manifest(id: &str, path: &str) -> PromptAssetManifest {
    PromptAssetManifest {
        asset_id: AssetRef::new(id.to_owned()),
        kind: PromptKind::Text,
        source_path: path.to_owned(),
        input_schema_ref: None,
        output_contract_ref: None,
        labels: Vec::new(),
        hash: None,
        status: AssetStatus::Active,
    }
}

fn slot(id: &str, kinds: Vec<PromptKind>, required: bool) -> SlotSpec {
    SlotSpec {
        slot_id: SlotId::new(id.to_owned()),
        allowed_kinds: kinds,
        required,
        structured_output: false,
        output_contract_required: false,
        optimizable: false,
        allow_child_render: false,
        notes: None,
        vars: Vec::new(),
        output_contract: None,
    }
}

fn metadata(id: &str, slots: &[&str]) -> Result<SectionMetadata, String> {
    Ok(SectionMetadata { asset_id: id.to_owned(), slot_ids: slots.iter().map(|s| (*s).to_owned()).collect() })
}

fn template_file() -> TemplateFile {
    TemplateFile {
        source_path: "writer.md.j2".to_owned(),
        display_path: "prompts/writer.md.j2".to_owned(),
        contents: Ok(TemplateText {
            text: TEMPLATE.to_owned(),
            section_metadata: vec![metadata("writer.csi", &["csi"]), metadata("writer.fti", &["fti"])],
        }),
    }
}

fn pack(name: &str, bindings: &[(&str, &str)]) -> PromptPack {
    PromptPack {
        name: name.to_owned(),
        extends: None,
        slots: bindings.iter().map(|(s, a)| (SlotId::new((*s).to_owned()), AssetRef::new((*a).to_owned()))).collect(),
    }
}

fn index(packs: Vec<PromptPack>) -> PromptIndex {
    PromptIndex {
        assets: vec![manifest("writer.csi", "writer.md.j2"), manifest("writer.fti", "writer.md.j2")],
        packs,
        default_pack: "base".to_owned(),
        policies: Vec::new(),
    }
}

fn slots() -> Vec<SlotSpec> {
    vec![slot("csi", vec![PromptKind::Text], true), slot("fti", vec![PromptKind::Text], true)]
}

fn compile(packs: Vec<PromptPack>) -> Result<CompiledCatalog, PromptError> {
    compile_catalog(index(packs), slots(), &vec![template_file()])
}

fn load_message(result: Result<CompiledCatalog, PromptError>) -> String {
    match result {
        Err(PromptError::CatalogLoad(m)) => m,
        other => panic!("expected a catalog load error, got {:?}", other.map(|c| c.asset_count())),
    }
}

#[test]
fn loader_compiles_assets_and_resolves_slots() {
    let catalog = compile(vec![pack("base", &[("csi", "writer.csi"), ("fti", "writer.fti")])]).unwrap();
    assert_eq!(catalog.asset_count(), 2);
    assert_eq!(catalog.pack_count(), 1);
    assert!(catalog.has_pack("base"));
    assert!(!catalog.has_pack("other"));
    assert!(catalog.raw_pack("base").is_some());
    let csi = catalog.asset("writer.csi").unwrap();
    assert_eq!(csi.body, "You plan.\n");
    assert_eq!(csi.compiled.source_anchor, "writer.md.j2#writer.csi");
    assert_eq!(csi.compiled.template_name, "writer.csi");
    assert_eq!(csi.compiled.resolved_hash, compute_asset_hash("You plan.\n", &manifest("writer.csi", "writer.md.j2")));
    let resolved = resolve_slot(
        &catalog.resolver,
        "fti",
        &PromptRenderOptions::with_pack_override(None),
        &catalog.packs,
        &catalog.assets,
    )
    .unwrap();
    assert_eq!(resolved.pack, "base");
    assert_eq!(resolved.selection_reason, "default");
    assert_eq!(resolved.root.asset_id.as_str(), "writer.fti");
    assert_eq!(resolved.root.hash.as_deref(), Some(catalog.asset("writer.fti").unwrap().compiled.resolved_hash.as_str()));
}

#[test]
fn loader_accepts_a_declared_hash_that_matches() {
    let mut idx = index(vec![pack("base", &[("csi", "writer.csi"), ("fti", "writer.fti")])]);
    let hash = compute_asset_hash("You plan.\n", &idx.assets[0]);
    idx.assets[0].hash = Some(hash.clone());
    let catalog = compile_catalog(idx, slots(), &vec![template_file()]).unwrap();
    assert_eq!(catalog.asset("writer.csi").unwrap().compiled.resolved_hash, hash);
}

#[test]
fn loader_refuses_a_declared_hash_that_differs() {
    let mut idx = index(vec![pack("base", &[("csi", "writer.csi"), ("fti", "writer.fti")])]);
    idx.assets[0].hash = Some("sha256:00".to_owned());
    let computed = compute_asset_hash("You plan.\n", &idx.assets[0]);
    let message = load_message(compile_catalog(idx, slots(), &vec![template_file()]));
    assert_eq!(message, format!("hash mismatch for asset `writer.csi`: declared=sha256:00, computed={computed}"));
}

#[test]
fn loader_refuses_unsupported_policies_first() {
    let mut idx = index(Vec::new());
    idx.policies = vec![
        PromptPolicy::Preamble { name: "p".to_owned(), content: "c".to_owned(), position: PreamblePosition::Prepend },
        PromptPolicy::RuntimeGuard { name: "guard".to_owned(), description: "d".to_owned() },
    ];
    assert_eq!(
        load_message(compile_catalog(idx, slots(), &Vec::new())),
        "policy `guard` uses unsupported type `runtime_guard`; only `preamble` is currently supported"
    );
    assert!(matches!(
        validate_policy_support(&vec![PromptPolicy::PostValidator { name: "v".to_owned() }]),
        Err(PromptError::CatalogLoad(m)) if m == "policy `v` uses unsupported type `post_validator`; only `preamble` is currently supported"
    ));
}

#[test]
fn loader_refuses_inactive_assets() {
    let mut m = manifest("old", "x.md");
    m.status = AssetStatus::Deprecated;
    assert!(matches!(
        validate_asset_status(&m),
        Err(PromptError::CatalogLoad(t)) if t == "asset `old` uses unsupported status `deprecated`; only `active` assets can be loaded"
    ));
    assert!(validate_asset_status(&manifest("new", "x.md")).is_ok());
}

#[test]
fn loader_groups_manifests_by_first_appearance_of_their_path() {
    let manifests = vec![manifest("a", "one.md"), manifest("b", "two.md"), manifest("c", "one.md")];
    assert_eq!(template_paths(&manifests), vec!["one.md".to_owned(), "two.md".to_owned()]);
    let groups = manifests_by_source_path(manifests);
    assert_eq!(groups.len(), 2);
    assert_eq!(groups[0].0, "one.md");
    let ids: Vec<&str> = groups[0].1.iter().map(|m| m.asset_id.as_str()).collect();
    assert_eq!(ids, vec!["a", "c"]);
    assert_eq!(groups[1].1[0].asset_id.as_str(), "b");
}

fn section(id: &str, slots: &[&str]) -> PromptAssetSection {
    PromptAssetSection {
        asset_id: AssetRef::new(id.to_owned()),
        slot_ids: slots.iter().map(|s| SlotId::new((*s).to_owned())).collect(),
        body: String::new(),
        source_anchor: format!("t.md#{id}"),
    }
}

#[test]
fn loader_checks_that_section_slots_agree() {
    let mut registry = vec![
        slot("a", vec![PromptKind::Text], true),
        slot("b", vec![PromptKind::Text], true),
        slot("c", vec![PromptKind::Messages], true),
        slot("d", vec![PromptKind::Text], true),
    ];
    registry[3].vars = vec![VarSpec { name: "x".to_owned(), var_type: VarType::String, required: true }];
    assert!(validate_section_slot_compatibility(&section("s", &["a", "b"]), &registry).is_ok());
    assert!(matches!(
        validate_section_slot_compatibility(&section("s", &[]), &registry),
        Err(PromptError::CatalogLoad(m)) if m == "section `s` must declare at least one slot id"
    ));
    assert!(matches!(
        validate_section_slot_compatibility(&section("s", &["a", "zz"]), &registry),
        Err(PromptError::CatalogLoad(m)) if m == "section `s` references unknown slot `zz` in `t.md#s`"
    ));
    assert!(matches!(
        validate_section_slot_compatibility(&section("s", &["a", "c"]), &registry),
        Err(PromptError::CatalogLoad(m)) if m == "section `s` declares multiple slots with different allowed_kinds: `a` vs `c`"
    ));
    assert!(matches!(
        validate_section_slot_compatibility(&section("s", &["a", "d"]), &registry),
        Err(PromptError::CatalogLoad(m)) if m == "section `s` declares multiple slots with different variable requirements: `a` vs `d`"
    ));
}

#[test]
fn loader_matches_sections_with_manifests() {
    let registry = vec![slot("a", vec![PromptKind::Text], true)];
    assert!(matches!(
        validate_sections_for_source("t.md", &vec![manifest("x", "t.md")], &vec![section("y", &["a"])], &registry),
        Err(PromptError::CatalogLoad(m)) if m == "asset `x` declared in index.yaml does not have a matching section in `t.md`"
    ));
    assert!(matches!(
        validate_sections_for_source(
            "t.md",
            &vec![manifest("x", "t.md")],
            &vec![section("x", &["a"]), section("y", &["a"])],
            &registry
        ),
        Err(PromptError::CatalogLoad(m)) if m == "section `y` in `t.md` is not registered in index.yaml"
    ));
}

#[test]
fn loader_reports_unreadable_and_unparsable_templates() {
    let unreadable = TemplateFile {
        source_path: "writer.md.j2".to_owned(),
        display_path: "prompts/writer.md.j2".to_owned(),
        contents: Err("permission denied".to_owned()),
    };
    assert_eq!(
        load_message(compile_catalog(index(Vec::new()), slots(), &vec![unreadable])),
        "failed to read template prompts/writer.md.j2: permission denied"
    );
    let stray = TemplateFile {
        source_path: "writer.md.j2".to_owned(),
        display_path: "prompts/writer.md.j2".to_owned(),
        contents: Ok(TemplateText { text: "stray\n".to_owned(), section_metadata: Vec::new() }),
    };
    assert_eq!(
        load_message(compile_catalog(index(Vec::new()), slots(), &vec![stray])),
        "failed to parse sections in prompts/writer.md.j2: unexpected content outside @asset block in `writer.md.j2` at line 1"
    );
    assert_eq!(
        load_message(compile_catalog(index(Vec::new()), slots(), &Vec::new())),
        "no contents were read for template `writer.md.j2`"
    );
}

#[test]
fn loader_refuses_duplicate_assets() {
    let mut idx = index(Vec::new());
    idx.assets.push(manifest("writer.csi", "writer.md.j2"));
    assert_eq!(
        load_message(compile_catalog(idx, slots(), &vec![template_file()])),
        "duplicate asset manifest `writer.csi` declared in index.yaml"
    );
}

#[test]
fn loader_checks_pack_names_and_default() {
    let both = [("csi", "writer.csi"), ("fti", "writer.fti")];
    assert_eq!(
        load_message(compile(vec![pack("base", &both), pack("base", &both)])),
        "duplicate pack name `base` declared in index.yaml"
    );
    assert_eq!(load_message(compile(vec![pack("other", &both)])), "resolver default_pack `base` does not exist");
    let mut orphan = pack("base", &both);
    orphan.extends = Some("missing".to_owned());
    assert!(matches!(compile(vec![orphan]), Err(PromptError::PackNotFound(n)) if n == "missing"));
}

#[test]
fn loader_checks_pack_bindings() {
    assert_eq!(
        load_message(compile(vec![pack("base", &[("csi", "writer.csi"), ("fti", "nope")])])),
        "pack `base` references unknown asset `nope` for slot `fti`"
    );
    assert_eq!(
        load_message(compile(vec![pack("base", &[("csi", "writer.csi"), ("fti", "writer.csi")])])),
        "pack `base` binds slot `fti` to asset `writer.csi`, but section `writer.md.j2#writer.csi` does not declare that slot"
    );
    assert_eq!(
        load_message(compile(vec![pack("base", &[("csi", "writer.csi")])])),
        "pack `base` does not cover required slot `fti`"
    );
    assert!(matches!(
        compile(vec![pack("base", &[("csi", "writer.csi@2"), ("fti", "writer.fti")])]),
        Err(PromptError::AssetNotFound(m)) if m == "asset ref `writer.csi@2` must be a bare `asset_id` without a revision suffix"
    ));
}

#[test]
fn loader_checks_the_kind_a_slot_takes() {
    let registry = vec![slot("csi", vec![PromptKind::Messages], true), slot("fti", vec![PromptKind::Text], true)];
    let result = compile_catalog(
        index(vec![pack("base", &[("csi", "writer.csi"), ("fti", "writer.fti")])]),
        registry,
        &vec![template_file()],
    );
    assert!(matches!(
        result,
        Err(PromptError::KindMismatch { slot, expected, actual })
            if slot == "csi" && expected == vec![PromptKind::Messages] && actual == PromptKind::Text
    ));
}

#[test]
fn render_target_checks_the_asset_and_the_slot_kind() {
    let mut catalog = compile(vec![pack("base", &[("csi", "writer.csi"), ("fti", "writer.fti")])]).unwrap();
    let options = PromptRenderOptions::with_pack_override(None);
    let resolved = resolve_slot(&catalog.resolver, "fti", &options, &catalog.packs, &catalog.assets).unwrap();
    let k = catalog.render_target("fti", &resolved).unwrap();
    assert_eq!(catalog.assets[k].compiled.template_name, "writer.fti");
    catalog.slots[1].allowed_kinds = vec![PromptKind::Messages];
    assert!(matches!(
        catalog.render_target("fti", &resolved),
        Err(PromptError::KindMismatch { slot, expected, actual })
            if slot == "fti" && expected == vec![PromptKind::Messages] && actual == PromptKind::Text
    ));
    let mut missing = resolved.clone();
    missing.root.asset_id = AssetRef::new("nowhere".to_owned());
    assert!(matches!(catalog.render_target("fti", &missing), Err(PromptError::AssetNotFound(a)) if a == "nowhere"));
    let (out, metadata) = finish_render(&catalog.policies, resolved.clone(), RenderedPrompt::Text("Hi".to_owned()), 7);
    assert!(matches!(out, RenderedPrompt::Text(t) if t == "Hi"));
    assert_eq!(metadata.render_duration_ms, 7);
    assert_eq!(metadata.rendered_assets[0].as_str(), "writer.fti");
    assert_eq!(metadata.pack, "base");
    assert!(!metadata.input_validated && !metadata.output_contract_validated);
    let message = PromptMessage { role: PromptRole::User, content: "x".to_owned() };
    let (out, metadata) = finish_render(&catalog.policies, resolved, RenderedPrompt::Messages(vec![message]), 1);
    assert!(matches!(out, RenderedPrompt::Messages(m) if m.len() == 1));
    assert!(metadata.applied_policies.is_empty());
}
