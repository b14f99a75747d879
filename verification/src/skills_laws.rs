//! Laws of the skill catalog.
use vstd::prelude::*;

use crate::json::{member, JsonView};
use crate::skills::{
    catalog_json, comes_from, delete_reply_json, delete_skill, lemma_slug_at, lemma_slug_is_first,
    list_reply_json, load_custom_skills, load_skills, merged, save_custom_skills, save_reply_json,
    save_skill, shown, slug_at, slugs, stored_skills, stored_slugs, summaries, summary_json,
    with_stored, with_summary, without_slug, SkillSource, SkillSummary, SkillsWrite, StoredSkill,
    StoredView, SummaryView,
};

verus! {

/// The first saved skill with this slug.
pub open spec fn stored_with(skills: Seq<StoredView>, slug: Seq<char>) -> Option<StoredView> {
    let at = slug_at(stored_slugs(skills), slug);
    if at < skills.len() {
        Some(skills[at as int])
    } else {
        None
    }
}

/// The first skill of a catalog with this slug.
pub open spec fn summary_with(catalog: Seq<SummaryView>, slug: Seq<char>) -> Option<SummaryView> {
    let at = slug_at(slugs(catalog), slug);
    if at < catalog.len() {
        Some(catalog[at as int])
    } else {
        None
    }
}

/// The last saved skill with this slug.
pub open spec fn last_with(skills: Seq<StoredView>, slug: Seq<char>) -> Option<StoredView>
    decreases skills.len(),
{
    if skills.len() == 0 {
        None
    } else if skills.last().slug == slug {
        Some(skills.last())
    } else {
        last_with(skills.drop_last(), slug)
    }
}

/// Whether no two saved skills share a slug.
pub open spec fn distinct_slugs(skills: Seq<StoredView>) -> bool {
    forall|i: int, j: int|
        0 <= i < j < skills.len() ==> (#[trigger] skills[i]).slug != (#[trigger] skills[j]).slug
}

proof fn lemma_stored_at(skills: Seq<StoredView>, slug: Seq<char>)
    ensures
        slug_at(stored_slugs(skills), slug) <= skills.len(),
        slug_at(stored_slugs(skills), slug) < skills.len() ==> skills[slug_at(
            stored_slugs(skills),
            slug,
        ) as int].slug == slug,
        forall|j: int|
            0 <= j < slug_at(stored_slugs(skills), slug) ==> (#[trigger] skills[j]).slug != slug,
{
    lemma_slug_is_first(stored_slugs(skills), slug);
    assert forall|j: int| 0 <= j < slug_at(stored_slugs(skills), slug) implies (
    #[trigger] skills[j]).slug != slug by {
        assert(stored_slugs(skills)[j] == skills[j].slug);
    }
}

proof fn lemma_stored_is_at(skills: Seq<StoredView>, slug: Seq<char>, i: int)
    requires
        0 <= i <= skills.len(),
        forall|j: int| 0 <= j < i ==> (#[trigger] skills[j]).slug != slug,
        i < skills.len() ==> skills[i].slug == slug,
    ensures
        slug_at(stored_slugs(skills), slug) == i,
{
    lemma_slug_at(stored_slugs(skills), slug, i);
}

/// A saved skill is the one found under its slug.
pub proof fn law_saved_skill_is_found(skills: Seq<StoredView>, skill: StoredView)
    ensures
        stored_with(with_stored(skills, skill), skill.slug) == Some(skill),
{
    lemma_stored_at(skills, skill.slug);
    lemma_stored_is_at(
        with_stored(skills, skill),
        skill.slug,
        slug_at(stored_slugs(skills), skill.slug) as int,
    );
}

/// Saving a skill changes nothing under any other slug.
pub proof fn law_saving_keeps_other_skills(
    skills: Seq<StoredView>,
    skill: StoredView,
    slug: Seq<char>,
)
    requires
        slug != skill.slug,
    ensures
        stored_with(with_stored(skills, skill), slug) == stored_with(skills, slug),
{
    lemma_stored_at(skills, skill.slug);
    lemma_stored_at(skills, slug);
    let after = with_stored(skills, skill);
    let at = slug_at(stored_slugs(skills), slug) as int;
    if at < skills.len() {
        lemma_stored_is_at(after, slug, at);
    } else {
        lemma_stored_is_at(after, slug, after.len() as int);
    }
}

/// Saving a skill a second time changes nothing.
pub proof fn law_saving_twice_is_saving_once(skills: Seq<StoredView>, skill: StoredView)
    ensures
        with_stored(with_stored(skills, skill), skill) == with_stored(skills, skill),
{
    lemma_stored_at(skills, skill.slug);
    let after = with_stored(skills, skill);
    lemma_stored_is_at(after, skill.slug, slug_at(stored_slugs(skills), skill.slug) as int);
    assert(with_stored(after, skill) =~= after);
}

/// A deleted skill is not found any more.
pub proof fn law_deleted_skill_is_gone(skills: Seq<StoredView>, slug: Seq<char>)
    ensures
        stored_with(without_slug(skills, slug), slug) is None,
{
    let after = without_slug(skills, slug);
    lemma_stored_at(after, slug);
    let at = slug_at(stored_slugs(after), slug) as int;
    if at < after.len() {
        skills.lemma_filter_pred(|skill: StoredView| skill.slug != slug, at);
    }
}

/// Deleting a skill changes nothing under any other slug.
pub proof fn law_deleting_keeps_other_skills(
    skills: Seq<StoredView>,
    deleted: Seq<char>,
    slug: Seq<char>,
)
    requires
        slug != deleted,
    ensures
        stored_with(without_slug(skills, deleted), slug) == stored_with(skills, slug),
    decreases skills.len(),
{
    reveal(Seq::filter);
    let after = without_slug(skills, deleted);
    if skills.len() > 0 {
        let shorter = skills.drop_last();
        let rest = without_slug(shorter, deleted);
        law_deleting_keeps_other_skills(shorter, deleted, slug);
        lemma_stored_at(shorter, slug);
        lemma_stored_at(rest, slug);
        let at = slug_at(stored_slugs(shorter), slug) as int;
        let rest_at = slug_at(stored_slugs(rest), slug) as int;
        assert(forall|j: int| 0 <= j < shorter.len() ==> #[trigger] skills[j] == shorter[j]);
        assert(forall|j: int| 0 <= j < rest.len() ==> #[trigger] after[j] == rest[j]);
        if at < shorter.len() {
            lemma_stored_is_at(skills, slug, at);
            lemma_stored_is_at(after, slug, rest_at);
        } else if skills.last().slug == slug {
            lemma_stored_is_at(skills, slug, skills.len() - 1);
            lemma_stored_is_at(after, slug, after.len() - 1);
        } else {
            lemma_stored_is_at(skills, slug, skills.len() as int);
            lemma_stored_is_at(after, slug, after.len() as int);
        }
    }
}

/// Saving and deleting keep the slugs of saved skills distinct.
pub proof fn law_slugs_stay_distinct(skills: Seq<StoredView>, skill: StoredView, slug: Seq<char>)
    requires
        distinct_slugs(skills),
    ensures
        distinct_slugs(with_stored(skills, skill)),
        distinct_slugs(without_slug(skills, slug)),
    decreases skills.len(),
{
    lemma_stored_at(skills, skill.slug);
    reveal(Seq::filter);
    if skills.len() > 0 {
        let shorter = skills.drop_last();
        assert(distinct_slugs(shorter));
        law_slugs_stay_distinct(shorter, skill, slug);
        let keeps = |kept: StoredView| kept.slug != slug;
        let rest = without_slug(shorter, slug);
        assert forall|i: int| 0 <= i < rest.len() implies (#[trigger] rest[i]).slug
            != skills.last().slug by {
            assert(shorter.filter(keeps).contains(rest[i]));
            shorter.lemma_filter_contains_rev(keeps, rest[i]);
            let j = choose|j: int| 0 <= j < shorter.len() && shorter[j] == rest[i];
            assert(skills[j].slug != skills[skills.len() - 1].slug);
        }
    }
}

/// A slug that some saved skill has shows the last of them in the catalog. Any other slug shows
/// what was shipped.
pub proof fn law_saved_skills_win(
    defaults: Seq<SummaryView>,
    custom: Seq<StoredView>,
    slug: Seq<char>,
)
    ensures
        summary_with(merged(defaults, custom), slug) == match last_with(custom, slug) {
            Some(stored) => Some(shown(stored)),
            None => summary_with(defaults, slug),
        },
    decreases custom.len(),
{
    if custom.len() > 0 {
        law_saved_skills_win(defaults, custom.drop_last(), slug);
        let before = merged(defaults, custom.drop_last());
        let skill = shown(custom.last());
        let after = with_summary(before, skill);
        lemma_slug_is_first(slugs(before), skill.slug);
        lemma_slug_is_first(slugs(before), slug);
        let place = slug_at(slugs(before), skill.slug) as int;
        let at = slug_at(slugs(before), slug) as int;
        assert(forall|j: int|
            0 <= j < after.len() ==> slugs(after)[j] == if j == place {
                skill.slug
            } else {
                slugs(before)[j]
            });
        if slug == skill.slug {
            lemma_slug_at(slugs(after), slug, place);
        } else if at < before.len() {
            lemma_slug_at(slugs(after), slug, at);
        } else {
            lemma_slug_at(slugs(after), slug, after.len() as int);
        }
    }
}

/// The shipped skills keep their places in the catalog, by slug.
pub proof fn law_shipped_skills_keep_their_places(
    defaults: Seq<SummaryView>,
    custom: Seq<StoredView>,
    i: int,
)
    requires
        0 <= i < defaults.len(),
    ensures
        i < merged(defaults, custom).len(),
        merged(defaults, custom)[i].slug == defaults[i].slug,
    decreases custom.len(),
{
    if custom.len() > 0 {
        law_shipped_skills_keep_their_places(defaults, custom.drop_last(), i);
        let before = merged(defaults, custom.drop_last());
        lemma_slug_is_first(slugs(before), custom.last().slug);
    }
}

proof fn lemma_has_last(skills: Seq<StoredView>, i: int)
    requires
        0 <= i < skills.len(),
    ensures
        last_with(skills, skills[i].slug) is Some,
    decreases skills.len(),
{
    if i < skills.len() - 1 {
        lemma_has_last(skills.drop_last(), i);
    }
}

/// Saved skills whose slugs the catalog has all go where it has them, the last of each slug.
proof fn lemma_merged_in_place(catalog: Seq<SummaryView>, custom: Seq<StoredView>)
    requires
        forall|i: int|
            0 <= i < custom.len() ==> slug_at(slugs(catalog), (#[trigger] custom[i]).slug)
                < catalog.len(),
    ensures
        merged(catalog, custom).len() == catalog.len(),
        slugs(merged(catalog, custom)) == slugs(catalog),
        forall|p: int|
            0 <= p < catalog.len() ==> #[trigger] merged(catalog, custom)[p] == match last_with(
                custom,
                catalog[p].slug,
            ) {
                Some(stored) if slug_at(slugs(catalog), catalog[p].slug) == p => shown(stored),
                _ => catalog[p],
            },
    decreases custom.len(),
{
    if custom.len() > 0 {
        let fewer = custom.drop_last();
        assert forall|i: int| 0 <= i < fewer.len() implies slug_at(
            slugs(catalog),
            (#[trigger] fewer[i]).slug,
        ) < catalog.len() by {
            assert(fewer[i] == custom[i]);
        }
        lemma_merged_in_place(catalog, fewer);
        let before = merged(catalog, fewer);
        let skill = shown(custom.last());
        let at = slug_at(slugs(catalog), skill.slug) as int;
        assert(custom[custom.len() - 1].slug == skill.slug);
        lemma_slug_is_first(slugs(catalog), skill.slug);
        assert(slugs(catalog)[at] == catalog[at].slug);
        let after = merged(catalog, custom);
        assert(after == before.update(at, skill));
        assert(slugs(after) =~= slugs(catalog)) by {
            assert forall|p: int| 0 <= p < catalog.len() implies slugs(after)[p] == slugs(
                catalog,
            )[p] by {
                assert(slugs(before)[p] == before[p].slug);
            }
        }
    }
}

/// Merging the saved skills a second time changes nothing, and with no saved skills the catalog is
/// what was shipped.
pub proof fn law_merging_twice_is_merging_once(
    defaults: Seq<SummaryView>,
    custom: Seq<StoredView>,
)
    ensures
        merged(merged(defaults, custom), custom) == merged(defaults, custom),
        merged(defaults, Seq::empty()) == defaults,
{
    let catalog = merged(defaults, custom);
    assert forall|i: int| 0 <= i < custom.len() implies slug_at(
        slugs(catalog),
        (#[trigger] custom[i]).slug,
    ) < catalog.len() by {
        lemma_has_last(custom, i);
        law_saved_skills_win(defaults, custom, custom[i].slug);
    }
    lemma_merged_in_place(catalog, custom);
    assert forall|p: int| 0 <= p < catalog.len() implies #[trigger] merged(catalog, custom)[p]
        == catalog[p] by {
        law_saved_skills_win(defaults, custom, catalog[p].slug);
    }
    assert(merged(catalog, custom) =~= catalog);
}

proof fn lemma_last_is_only(skills: Seq<StoredView>, slug: Seq<char>, i: int)
    requires
        distinct_slugs(skills),
        0 <= i < skills.len(),
        skills[i].slug == slug,
    ensures
        last_with(skills, slug) == Some(skills[i]),
    decreases skills.len(),
{
    if i < skills.len() - 1 {
        assert(distinct_slugs(skills.drop_last()));
        lemma_last_is_only(skills.drop_last(), slug, i);
    }
}

/// Once a skill is saved, the catalog shows it under its slug.
pub proof fn law_saved_skill_shows(
    defaults: Seq<SummaryView>,
    custom: Seq<StoredView>,
    skill: StoredView,
)
    requires
        distinct_slugs(custom),
    ensures
        summary_with(merged(defaults, with_stored(custom, skill)), skill.slug) == Some(
            shown(skill),
        ),
{
    let after = with_stored(custom, skill);
    law_slugs_stay_distinct(custom, skill, skill.slug);
    lemma_stored_at(custom, skill.slug);
    lemma_last_is_only(after, skill.slug, slug_at(stored_slugs(custom), skill.slug) as int);
    law_saved_skills_win(defaults, after, skill.slug);
}

// ── What is kept, shown and loaded ──────────────────────────────────────

/// Saving changes one skill and no other: each saved skill with another slug stays in its place, as
/// it is, and there is at most one skill more.
pub proof fn law_saving_keeps_every_place(skills: Seq<StoredView>, skill: StoredView, i: int)
    requires
        0 <= i < skills.len(),
        skills[i].slug != skill.slug,
    ensures
        with_stored(skills, skill).len() == skills.len() || with_stored(skills, skill)
            == skills.push(skill),
        i < with_stored(skills, skill).len(),
        with_stored(skills, skill)[i] == skills[i],
        with_stored(skills, skill).contains(skill),
{
    lemma_stored_at(skills, skill.slug);
    let after = with_stored(skills, skill);
    assert(after[slug_at(stored_slugs(skills), skill.slug) as int] == skill);
}

/// Deleting takes out the skills with that slug and no others, and leaves the others in order.
pub proof fn law_deleting_takes_out_one_slug(
    skills: Seq<StoredView>,
    skill: StoredView,
    slug: Seq<char>,
)
    ensures
        without_slug(skills.push(skill), slug) == if skill.slug == slug {
            without_slug(skills, slug)
        } else {
            without_slug(skills, slug).push(skill)
        },
        without_slug(Seq::empty(), slug).len() == 0,
{
    reveal(Seq::filter);
    assert(skills.push(skill).drop_last() =~= skills);
}

/// The catalog shows a saved skill by its own slug, title and summary, and by no file.
pub proof fn law_saved_skills_are_shown_as_saved(stored: StoredView)
    ensures
        shown(stored).slug == stored.slug,
        shown(stored).title == stored.title,
        shown(stored).summary == stored.summary,
        shown(stored).path is None,
{
}

/// The full text of a skill that was saved is the prompt that was saved, whatever was shipped under
/// its slug.
pub proof fn law_saved_prompts_are_loaded(
    custom: Seq<StoredView>,
    skill: StoredView,
    catalog: Seq<SummaryView>,
    source: SkillSource,
)
    requires
        comes_from(source, skill.slug, with_stored(custom, skill), catalog),
    ensures
        source matches SkillSource::Prompt(prompt) && prompt@ == skill.prompt,
{
    law_saved_skill_is_found(custom, skill);
}

/// The full text of a skill that was only shipped is its file, or its summary where it has none,
/// and a slug that nothing has is told to be unknown.
pub proof fn law_shipped_skills_are_loaded(
    custom: Seq<StoredView>,
    catalog: Seq<SummaryView>,
    slug: Seq<char>,
    source: SkillSource,
    i: int,
)
    requires
        comes_from(source, slug, custom, catalog),
        forall|j: int| 0 <= j < custom.len() ==> (#[trigger] custom[j]).slug != slug,
    ensures
        0 <= i < catalog.len() && catalog[i].slug == slug && (forall|j: int|
            0 <= j < i ==> (#[trigger] catalog[j]).slug != slug) ==> match catalog[i].path {
            Some(path) => source matches SkillSource::Fetch(file) && file@ == path,
            None => source matches SkillSource::Summary(told) && told@ == catalog[i],
        },
        (forall|j: int| 0 <= j < catalog.len() ==> (#[trigger] catalog[j]).slug != slug) ==> (
        source matches SkillSource::Unknown(message) && slug.is_suffix_of(message@)),
{
    lemma_stored_is_at(custom, slug, custom.len() as int);
    if 0 <= i < catalog.len() && catalog[i].slug == slug && (forall|j: int|
        0 <= j < i ==> (#[trigger] catalog[j]).slug != slug) {
        lemma_slug_at(slugs(catalog), slug, i);
    }
    if forall|j: int| 0 <= j < catalog.len() ==> (#[trigger] catalog[j]).slug != slug {
        lemma_slug_at(slugs(catalog), slug, catalog.len() as int);
        if let SkillSource::Unknown(message) = source {
            assert(message@.subrange(message@.len() - slug.len(), message@.len() as int) =~= slug);
        }
    }
}

/// The model is told of every skill of the catalog, in order, by its slug, title, summary and file.
pub proof fn law_catalogs_are_told_in_full(catalog: Seq<SummaryView>, i: int)
    requires
        0 <= i < catalog.len(),
    ensures
        catalog_json(catalog) matches JsonView::Array(told) && {
            &&& told.len() == catalog.len()
            &&& member(told[i], "slug"@) == Some(JsonView::Text(catalog[i].slug))
            &&& member(told[i], "title"@) == Some(JsonView::Text(catalog[i].title))
            &&& member(told[i], "summary"@) == Some(JsonView::Text(catalog[i].summary))
            &&& member(told[i], "path"@) == match catalog[i].path {
                Some(path) => Some(JsonView::Text(path)),
                None => Some(JsonView::Null),
            }
        },
{
    lemma_summary_members(catalog[i]);
}

proof fn lemma_summary_members(skill: SummaryView)
    ensures
        member(summary_json(skill), "slug"@) == Some(JsonView::Text(skill.slug)),
        member(summary_json(skill), "title"@) == Some(JsonView::Text(skill.title)),
        member(summary_json(skill), "summary"@) == Some(JsonView::Text(skill.summary)),
        member(summary_json(skill), "path"@) == match skill.path {
            Some(path) => Some(JsonView::Text(path)),
            None => Some(JsonView::Null),
        },
{
    reveal_strlit("slug");
    reveal_strlit("title");
    reveal_strlit("summary");
    reveal_strlit("path");
    assert("slug"@.len() == 4 && "title"@.len() == 5 && "summary"@.len() == 7 && "path"@.len() == 4);
    assert("slug"@[0] != "path"@[0]);
}

/// A reply of the skills tool names the action and says what came of it, and tells the catalog as
/// it is after that.
pub proof fn law_skill_replies_say_what_came_of_it(
    stored: StoredView,
    slug: Seq<char>,
    deleted: bool,
    catalog: Seq<SummaryView>,
)
    ensures
        member(list_reply_json(catalog), "action"@) == Some(JsonView::Text("list"@)),
        member(list_reply_json(catalog), "skills"@) == Some(catalog_json(catalog)),
        member(save_reply_json(stored, catalog), "action"@) == Some(JsonView::Text("save"@)),
        member(save_reply_json(stored, catalog), "skills"@) == Some(catalog_json(catalog)),
        member(save_reply_json(stored, catalog), "skill"@) matches Some(told) && {
            &&& member(told, "slug"@) == Some(JsonView::Text(stored.slug))
            &&& member(told, "title"@) == Some(JsonView::Text(stored.title))
            &&& member(told, "summary"@) == Some(JsonView::Text(stored.summary))
        },
        member(delete_reply_json(slug, deleted, catalog), "action"@) == Some(
            JsonView::Text("delete"@),
        ),
        member(delete_reply_json(slug, deleted, catalog), "slug"@) == Some(JsonView::Text(slug)),
        member(delete_reply_json(slug, deleted, catalog), "deleted"@) == Some(
            JsonView::Bool(deleted),
        ),
        member(delete_reply_json(slug, deleted, catalog), "skills"@) == Some(
            catalog_json(catalog),
        ),
{
    lemma_summary_members(shown(stored));
    reveal_strlit("action");
    reveal_strlit("skills");
    reveal_strlit("skill");
    reveal_strlit("slug");
    reveal_strlit("deleted");
    assert("action"@.len() == 6 && "skills"@.len() == 6 && "skill"@.len() == 5 && "slug"@.len() == 4
        && "deleted"@.len() == 7);
    assert("action"@[0] != "skills"@[0]);
}

/// A saved skill takes the place of the first of the catalog that has its slug, and goes to the end
/// where none has it. Nothing else of the catalog changes.
pub proof fn law_saved_skills_are_put_in(
    defaults: Seq<SummaryView>,
    custom: Seq<StoredView>,
    skill: StoredView,
    i: int,
)
    ensures
        ({
            let before = merged(defaults, custom);
            let after = merged(defaults, custom.push(skill));
            &&& (forall|j: int| 0 <= j < before.len() ==> (#[trigger] before[j]).slug != skill.slug)
                ==> after == before.push(shown(skill))
            &&& 0 <= i < before.len() && before[i].slug == skill.slug && (forall|j: int|
                0 <= j < i ==> (#[trigger] before[j]).slug != skill.slug) ==> after
                == before.update(i, shown(skill))
        }),
{
    let before = merged(defaults, custom);
    assert(custom.push(skill).drop_last() =~= custom);
    if forall|j: int| 0 <= j < before.len() ==> (#[trigger] before[j]).slug != skill.slug {
        lemma_slug_at(slugs(before), skill.slug, before.len() as int);
    }
    if 0 <= i < before.len() && before[i].slug == skill.slug && (forall|j: int|
        0 <= j < i ==> (#[trigger] before[j]).slug != skill.slug) {
        lemma_slug_at(slugs(before), skill.slug, i);
    }
}

/// A skill that is saved is among the saved ones as it was given, one that is deleted is not, and
/// it is said whether there was one to delete.
pub proof fn law_skills_are_saved_and_deleted(
    custom: &mut Vec<StoredSkill>,
    fewer: &mut Vec<StoredSkill>,
    stored: StoredSkill,
    slug: &str,
    done: (),
    deleted: bool,
)
    requires
        call_ensures(save_skill, (custom, &stored), done),
        call_ensures(delete_skill, (fewer, slug), deleted),
    ensures
        stored_with(stored_skills(final(custom)@), stored.slug@) == Some(
            StoredView {
                slug: stored.slug@,
                title: stored.title@,
                summary: stored.summary@,
                prompt: stored.prompt@,
            },
        ),
        stored_with(stored_skills(final(fewer)@), slug@) is None,
        deleted <==> exists|i: int| 0 <= i < old(fewer)@.len() && (#[trigger] old(fewer)@[i]).slug@
            == slug@,
{
    law_saved_skill_is_found(stored_skills(old(custom)@), stored@);
    law_deleted_skill_is_gone(stored_skills(old(fewer)@), slug@);
    let all = stored_slugs(stored_skills(old(fewer)@));
    assert forall|i: int| 0 <= i < old(fewer)@.len() implies #[trigger] all[i] == old(fewer)@[i].slug@ by {}
    if deleted {
        let i = all.index_of(slug@);
        assert(old(fewer)@[i].slug@ == slug@);
    }
    if exists|i: int| 0 <= i < old(fewer)@.len() && (#[trigger] old(fewer)@[i]).slug@ == slug@ {
        let i = choose|i: int|
            0 <= i < old(fewer)@.len() && (#[trigger] old(fewer)@[i]).slug@ == slug@;
        assert(all[i] == slug@);
    }
}

/// The saved skills are those that storage holds, and none where it holds none. An empty list
/// leaves no entry behind, and any other is written.
pub proof fn law_saved_skills_are_those_of_storage(
    stored: Option<Vec<StoredSkill>>,
    skills: Vec<StoredSkill>,
    write: SkillsWrite,
)
    requires
        call_ensures(load_custom_skills, (stored,), skills),
        call_ensures(save_custom_skills, (&skills,), write),
    ensures
        stored matches Some(held) ==> stored_skills(skills@) == stored_skills(held@),
        stored is None ==> skills@.len() == 0,
        write is Remove <==> skills@.len() == 0,
{
    assert(stored_skills(skills@).len() == skills@.len());
}

/// A catalog that could not be fetched is told by its fault, and one that was holds every shipped
/// skill.
pub proof fn law_catalogs_are_as_fetched(
    fault: String,
    defaults: Vec<SkillSummary>,
    custom: Vec<StoredSkill>,
    failed: Result<Vec<SkillSummary>, String>,
    catalog: Result<Vec<SkillSummary>, String>,
    i: int,
)
    requires
        call_ensures(load_skills, (Err::<Vec<SkillSummary>, String>(fault), &custom), failed),
        call_ensures(load_skills, (Ok::<Vec<SkillSummary>, String>(defaults), &custom), catalog),
    ensures
        failed == Err::<Vec<SkillSummary>, String>(fault),
        catalog is Ok,
        0 <= i < defaults@.len() ==> i < catalog->Ok_0@.len() && catalog->Ok_0@[i].slug@
            == defaults@[i].slug@,
{
    let all = summaries(catalog->Ok_0@);
    assert(all.len() == catalog->Ok_0@.len());
    if 0 <= i < defaults@.len() {
        law_shipped_skills_keep_their_places(summaries(defaults@), stored_skills(custom@), i);
        assert(all[i] == catalog->Ok_0@[i]@);
    }
}

/// The texts of skills are their own, each in its place.
pub proof fn law_skills_say_what_they_hold(
    summary: SkillSummary,
    stored: StoredSkill,
    catalog: Seq<SkillSummary>,
    saved: Seq<StoredSkill>,
)
    ensures
        summary@.slug == summary.slug@,
        summary@.title == summary.title@,
        summary@.summary == summary.summary@,
        summary@.path is Some <==> summary.path is Some,
        summary.path matches Some(path) ==> summary@.path == Some(path@),
        stored@.slug == stored.slug@,
        stored@.title == stored.title@,
        stored@.summary == stored.summary@,
        stored@.prompt == stored.prompt@,
        summaries(catalog).len() == catalog.len(),
        forall|i: int| 0 <= i < catalog.len() ==> #[trigger] summaries(catalog)[i] == catalog[i]@,
        stored_skills(saved).len() == saved.len(),
        forall|i: int| 0 <= i < saved.len() ==> #[trigger] stored_skills(saved)[i] == saved[i]@,
{
}

} // verus!
