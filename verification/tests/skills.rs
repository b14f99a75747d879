use fedigents::skills::{
    delete_reply, delete_skill, find_skill, list_reply, load_custom_skills, load_skills,
    manage_skills, merge_skill_summaries, save_custom_skills, save_reply, save_skill, SkillSource,
    SkillSummary, SkillsRequest, SkillsWrite, StoredSkill,
};

fn shipped(slug: &str, path: Option<&str>) -> SkillSummary {
    SkillSummary {
        slug: slug.to_owned(),
        title: format!("{slug} title"),
        summary: format!("{slug} summary"),
        path: path.map(str::to_owned),
    }
}

fn stored(slug: &str, prompt: &str) -> StoredSkill {
    StoredSkill {
        slug: slug.to_owned(),
        title: format!("own {slug}"),
        summary: format!("own {slug} summary"),
        prompt: prompt.to_owned(),
    }
}

fn slugs(skills: &[SkillSummary]) -> Vec<&str> {
    skills.iter().map(|skill| skill.slug.as_str()).collect()
}

#[test]
fn saved_skills_replace_shipped_ones_in_place_or_come_last() {
    let catalog = merge_skill_summaries(
        vec![shipped("a", Some("a.md")), shipped("b", None)],
        &vec![stored("c", "p"), stored("a", "q")],
    );
    assert_eq!(slugs(&catalog), ["a", "b", "c"]);
    assert_eq!(catalog[0].title, "own a");
    assert_eq!(catalog[0].path, None);
    assert_eq!(catalog[1].title, "b title");
}

#[test]
fn the_last_saved_skill_of_a_slug_wins() {
    let catalog = merge_skill_summaries(vec![], &vec![stored("a", "1"), {
        let mut second = stored("a", "2");
        second.title = "second".to_owned();
        second
    }]);
    assert_eq!(catalog.len(), 1);
    assert_eq!(catalog[0].title, "second");
}

#[test]
fn merging_twice_is_merging_once() {
    let custom = vec![stored("c", "p"), stored("a", "q"), stored("c", "r")];
    let shown = |catalog: &[SkillSummary]| -> Vec<(String, String)> {
        catalog.iter().map(|skill| (skill.slug.clone(), skill.title.clone())).collect()
    };
    let once = merge_skill_summaries(vec![shipped("a", None), shipped("b", None)], &custom);
    let first = shown(&once);
    assert_eq!(shown(&merge_skill_summaries(once, &custom)), first);
    let plain = merge_skill_summaries(vec![shipped("a", None)], &vec![]);
    assert_eq!(shown(&plain), [("a".to_owned(), "a title".to_owned())]);
}

#[test]
fn a_fault_of_the_shipped_catalog_is_handed_on() {
    assert_eq!(
        load_skills(Err("offline".to_owned()), &vec![]).unwrap_err(),
        "offline"
    );
    let catalog = load_skills(Ok(vec![shipped("a", None)]), &vec![stored("b", "p")]).unwrap();
    assert_eq!(slugs(&catalog), ["a", "b"]);
}

#[test]
fn unreadable_storage_holds_no_skills() {
    assert!(load_custom_skills(None).is_empty());
    assert_eq!(load_custom_skills(Some(vec![stored("a", "p")])).len(), 1);
}

#[test]
fn a_saved_skill_is_found_and_saving_again_changes_nothing() {
    let mut custom = vec![stored("a", "old"), stored("b", "b")];
    save_skill(&mut custom, &stored("a", "new"));
    assert_eq!(custom.len(), 2);
    assert_eq!(custom[0].prompt, "new");
    assert_eq!(custom[1].prompt, "b");
    save_skill(&mut custom, &stored("a", "new"));
    assert_eq!(custom.len(), 2);
    save_skill(&mut custom, &stored("c", "c"));
    assert_eq!(custom[2].slug, "c");
    let catalog = merge_skill_summaries(vec![shipped("c", Some("c.md"))], &custom);
    assert_eq!(catalog[0].title, "own c");
}

#[test]
fn a_deleted_skill_is_gone_and_the_others_stay() {
    let mut custom = vec![stored("a", "1"), stored("b", "2"), stored("a", "3")];
    assert!(delete_skill(&mut custom, "a"));
    assert_eq!(custom.len(), 1);
    assert_eq!(custom[0].slug, "b");
    assert!(!delete_skill(&mut custom, "a"));
    assert_eq!(custom.len(), 1);
}

#[test]
fn an_empty_list_leaves_no_entry() {
    assert_eq!(save_custom_skills(&vec![]), SkillsWrite::Remove);
    assert_eq!(save_custom_skills(&vec![stored("a", "p")]), SkillsWrite::Write);
}

fn text(value: &str) -> Option<String> {
    Some(value.to_owned())
}

#[test]
fn requests_of_the_skills_tool_are_read() {
    assert!(matches!(
        manage_skills("list", None, None, None, None),
        Ok(SkillsRequest::List)
    ));
    match manage_skills("save", text("s"), text("t"), text("u"), text("p")) {
        Ok(SkillsRequest::Save(skill)) => {
            assert_eq!(skill.slug, "s");
            assert_eq!(skill.title, "t");
            assert_eq!(skill.summary, "u");
            assert_eq!(skill.prompt, "p");
        }
        _ => panic!("not a save"),
    }
    assert!(matches!(
        manage_skills("delete", text("s"), None, None, None),
        Ok(SkillsRequest::Delete(slug)) if slug == "s"
    ));
}

#[test]
fn requests_of_the_skills_tool_are_refused() {
    let refusal = |result: Result<SkillsRequest, String>| result.unwrap_err();
    assert_eq!(
        refusal(manage_skills("save", None, None, None, None)),
        "skills save requires a slug"
    );
    assert_eq!(
        refusal(manage_skills("save", text("s"), None, None, None)),
        "skills save requires a title"
    );
    assert_eq!(
        refusal(manage_skills("save", text("s"), text("t"), None, text("p"))),
        "skills save requires a summary"
    );
    assert_eq!(
        refusal(manage_skills("save", text("s"), text("t"), text("u"), None)),
        "skills save requires a prompt"
    );
    assert_eq!(
        refusal(manage_skills("delete", None, None, None, None)),
        "skills delete requires a slug"
    );
    assert_eq!(
        refusal(manage_skills("drop", None, None, None, None)),
        "Unsupported skills action: drop. Use list, save, or delete."
    );
}

#[test]
fn replies_of_the_skills_tool() {
    let catalog = vec![shipped("a", Some("a.md"))];
    let listed = r#"[{"path":"a.md","slug":"a","summary":"a summary","title":"a title"}]"#;
    assert_eq!(
        list_reply(&catalog).to_text(),
        format!(r#"{{"action":"list","skills":{listed}}}"#)
    );
    assert_eq!(
        save_reply(&stored("b", "p"), &catalog).to_text(),
        format!(
            r#"{{"action":"save","skill":{{"path":null,"slug":"b","summary":"own b summary","title":"own b"}},"skills":{listed}}}"#
        )
    );
    assert_eq!(
        delete_reply("b", true, &catalog).to_text(),
        format!(r#"{{"action":"delete","deleted":true,"skills":{listed},"slug":"b"}}"#)
    );
}

#[test]
fn skills_are_looked_up_among_the_saved_ones_first() {
    let custom = vec![stored("a", "own prompt")];
    let catalog = vec![
        shipped("a", Some("a.md")),
        shipped("b", Some("b.md")),
        shipped("c", None),
    ];
    assert!(matches!(find_skill("a", &custom, &catalog), SkillSource::Prompt(p) if p == "own prompt"));
    assert!(matches!(find_skill("b", &custom, &catalog), SkillSource::Fetch(p) if p == "b.md"));
    assert!(matches!(find_skill("c", &custom, &catalog), SkillSource::Summary(s) if s.slug == "c"));
    assert!(
        matches!(find_skill("d", &custom, &catalog), SkillSource::Unknown(m) if m == "Unknown skill: d")
    );
}
