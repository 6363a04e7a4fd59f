use orchd::digest::sha256_hex;
use orchd::reading_material::{
    build_reading_material, reading_candidates, resolve_doc_ref, settled_reading_material,
    DocDisposition, DocFile, DocRef, ReadingMaterialRuleSpec, ReadingMaterialSpecSet,
};

#[test]
fn doc_ref_parsing_rejects_parent_dir() {
    assert!(DocRef::parse("workdir:../secrets").is_err());
    assert!(DocRef::parse("repo:main/forgejo-agent:../secrets").is_err());
}

fn rule(kind: &str, reference: &str, order: i64, importance: &str) -> ReadingMaterialRuleSpec {
    ReadingMaterialRuleSpec {
        kind: kind.to_string(),
        reference: reference.to_string(),
        roles: vec!["*".to_string()],
        directives: vec!["impl".to_string()],
        order,
        importance: importance.to_string(),
        max_bytes: None,
    }
}

#[test]
fn reading_material_includes_and_points_docs() {
    let global = ReadingMaterialSpecSet::fallback();
    let mut repo = ReadingMaterialSpecSet::fallback();
    repo.rule = vec![
        rule("include", "workdir:docs/a.txt", 10, "required"),
        rule("point", "workdir:docs/b.txt", 20, "recommended"),
    ];
    let candidates = reading_candidates(&global, &Some(repo), &None, "codex-dev", "impl");
    assert_eq!(candidates.rules.len(), 2);
    let texts = ["alpha\n", "beta\n"];
    let files: Vec<_> = texts
        .iter()
        .map(|t| DocFile::Found { bytes: t.len() as u64, sha256: sha256_hex(t.as_bytes()) })
        .collect();
    let contents: Vec<_> = texts.iter().map(|t| Ok(t.to_string())).collect();
    let outcome = build_reading_material(
        candidates,
        "codex-dev",
        "impl",
        "/work",
        &vec![],
        &files,
        &contents,
    );

    assert!(outcome.markdown.contains("## Reading material"));
    assert!(outcome.markdown.contains("alpha"));
    assert!(outcome.markdown.contains("Read `docs/b.txt` in this repo."));

    let docs = &outcome.doc_plan.docs;
    assert_eq!(docs.len(), 2);
    assert_eq!(docs[0].disposition, DocDisposition::Included);
    assert_eq!(docs[1].disposition, DocDisposition::Pointed);
    assert!(docs[0].sha256.as_deref().unwrap_or_default().len() >= 64);
    assert!(docs[0].bytes.unwrap_or_default() > 0);
}

#[test]
fn digests_are_those_of_the_standard() {
    assert_eq!(
        sha256_hex("abc".as_bytes()),
        "ba7816bf8f01cfea414140de5dae2223b00361a396177a9cb410ff61f20015ad"
    );
}

#[test]
fn rules_for_other_roles_do_not_apply() {
    let mut global = ReadingMaterialSpecSet::fallback();
    let mut other = rule("include", "workdir:docs/a.txt", 10, "required");
    other.roles = vec!["codex-lead".to_string()];
    global.rule = vec![other, rule("include", "nowhere", 1, "required")];
    let candidates = reading_candidates(&global, &None, &None, "codex-dev", "impl");
    assert_eq!(candidates.rules.len(), 0);
    assert_eq!(candidates.warnings.len(), 1);
}

#[test]
fn documents_are_found_below_the_work() {
    let place = DocRef::parse("workdir:docs/a.txt").expect("place");
    assert_eq!(resolve_doc_ref("/work", &vec![], &place), Ok("/work/docs/a.txt".to_string()));
}

#[test]
fn only_fresh_prompts_tell_of_documents() {
    let global = ReadingMaterialSpecSet::fallback();
    assert!(settled_reading_material(&global, "codex-dev", "impl", "fresh").is_none());
    match settled_reading_material(&global, " Codex-Dev", "IMPL", "followup") {
        Some(x) => {
            assert_eq!(x.markdown, "");
            assert_eq!(x.doc_plan.prompt_mode, "followup");
            assert_eq!((x.doc_plan.role.as_str(), x.doc_plan.directive.as_str()), ("codex-dev", "impl"));
            assert!(x.doc_plan.docs.is_empty());
        }
        None => panic!("a session that goes on is told of none"),
    }
}
