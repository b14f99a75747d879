//! The skill catalog: the skills shipped with the wallet, the skills a user saved, and the
//! replies of the tool that manages them.
use vstd::prelude::*;

use crate::json::{array_view, lemma_array_len, optional_text_json, Fields, Json, JsonView};
use crate::text::{optional_view, same_text};

verus! {

/// The storage key of the saved skills.
pub const CUSTOM_SKILLS_KEY: &'static str = "fedigents.skills.custom";

/// A skill as the agent is told of it.
#[derive(Clone, Debug)]
pub struct SkillSummary {
    pub slug: String,
    pub title: String,
    pub summary: String,
    pub path: Option<String>,
}

/// A skill that a user saved.
#[derive(Clone, Debug)]
pub struct StoredSkill {
    pub slug: String,
    pub title: String,
    pub summary: String,
    pub prompt: String,
}

/// The texts of a `SkillSummary`.
pub struct SummaryView {
    pub slug: Seq<char>,
    pub title: Seq<char>,
    pub summary: Seq<char>,
    pub path: Option<Seq<char>>,
}

/// The texts of a `StoredSkill`.
pub struct StoredView {
    pub slug: Seq<char>,
    pub title: Seq<char>,
    pub summary: Seq<char>,
    pub prompt: Seq<char>,
}

impl View for SkillSummary {
    type V = SummaryView;

    open spec fn view(&self) -> SummaryView {
        SummaryView {
            slug: self.slug@,
            title: self.title@,
            summary: self.summary@,
            path: optional_view(self.path),
        }
    }
}

impl View for StoredSkill {
    type V = StoredView;

    open spec fn view(&self) -> StoredView {
        StoredView {
            slug: self.slug@,
            title: self.title@,
            summary: self.summary@,
            prompt: self.prompt@,
        }
    }
}

/// The texts of several summaries.
pub open spec fn summaries(skills: Seq<SkillSummary>) -> Seq<SummaryView> {
    skills.map_values(|skill: SkillSummary| skill@)
}

/// The texts of several saved skills.
pub open spec fn stored_skills(skills: Seq<StoredSkill>) -> Seq<StoredView> {
    skills.map_values(|skill: StoredSkill| skill@)
}

/// The slugs of a catalog, in order.
pub open spec fn slugs(skills: Seq<SummaryView>) -> Seq<Seq<char>> {
    skills.map_values(|skill: SummaryView| skill.slug)
}

/// The slugs of saved skills, in order.
pub open spec fn stored_slugs(skills: Seq<StoredView>) -> Seq<Seq<char>> {
    skills.map_values(|skill: StoredView| skill.slug)
}

/// The first position of `slug`, or the length where it does not occur.
pub open spec fn slug_at(slugs: Seq<Seq<char>>, slug: Seq<char>) -> nat
    decreases slugs.len(),
{
    if slugs.len() == 0 || slugs[0] == slug {
        0
    } else {
        1 + slug_at(slugs.skip(1), slug)
    }
}

/// What the catalog shows of a saved skill.
pub open spec fn shown(stored: StoredView) -> SummaryView {
    SummaryView { slug: stored.slug, title: stored.title, summary: stored.summary, path: None }
}

/// A catalog with `skill` in the place of the first one with its slug, or at the end.
pub open spec fn with_summary(skills: Seq<SummaryView>, skill: SummaryView) -> Seq<SummaryView> {
    let at = slug_at(slugs(skills), skill.slug);
    if at < skills.len() {
        skills.update(at as int, skill)
    } else {
        skills.push(skill)
    }
}

/// The shipped catalog with each saved skill put in, in order.
pub open spec fn merged(defaults: Seq<SummaryView>, custom: Seq<StoredView>) -> Seq<SummaryView>
    decreases custom.len(),
{
    if custom.len() == 0 {
        defaults
    } else {
        with_summary(merged(defaults, custom.drop_last()), shown(custom.last()))
    }
}

/// Saved skills with `skill` in the place of the first one with its slug, or at the end.
pub open spec fn with_stored(skills: Seq<StoredView>, skill: StoredView) -> Seq<StoredView> {
    let at = slug_at(stored_slugs(skills), skill.slug);
    if at < skills.len() {
        skills.update(at as int, skill)
    } else {
        skills.push(skill)
    }
}

/// Saved skills without those that have this slug.
pub open spec fn without_slug(skills: Seq<StoredView>, slug: Seq<char>) -> Seq<StoredView> {
    skills.filter(|skill: StoredView| skill.slug != slug)
}

/// A summary as JSON.
pub open spec fn summary_json(skill: SummaryView) -> JsonView {
    JsonView::Object(
        map![
            "slug"@ => JsonView::Text(skill.slug),
            "title"@ => JsonView::Text(skill.title),
            "summary"@ => JsonView::Text(skill.summary),
            "path"@ => optional_text_json(skill.path),
        ],
    )
}

/// A catalog as JSON.
pub open spec fn catalog_json(skills: Seq<SummaryView>) -> JsonView {
    JsonView::Array(skills.map_values(|skill: SummaryView| summary_json(skill)))
}

/// The first position of a slug is where it is found.
pub proof fn lemma_slug_at(slugs: Seq<Seq<char>>, slug: Seq<char>, i: int)
    requires
        0 <= i <= slugs.len(),
        forall|j: int| 0 <= j < i ==> slugs[j] != slug,
        i < slugs.len() ==> slugs[i] == slug,
    ensures
        slug_at(slugs, slug) == i,
    decreases i,
{
    if i > 0 {
        assert forall|j: int| 0 <= j < i - 1 implies slugs.skip(1)[j] != slug by {
            assert(slugs.skip(1)[j] == slugs[j + 1]);
        }
        lemma_slug_at(slugs.skip(1), slug, i - 1);
    }
}

/// A slug is found at its first position, or nowhere.
pub proof fn lemma_slug_is_first(slugs: Seq<Seq<char>>, slug: Seq<char>)
    ensures
        slug_at(slugs, slug) <= slugs.len(),
        slug_at(slugs, slug) < slugs.len() ==> slugs[slug_at(slugs, slug) as int] == slug,
        forall|j: int| 0 <= j < slug_at(slugs, slug) ==> #[trigger] slugs[j] != slug,
    decreases slugs.len(),
{
    if slugs.len() > 0 && slugs[0] != slug {
        lemma_slug_is_first(slugs.skip(1), slug);
        assert forall|j: int| 0 <= j < slug_at(slugs, slug) implies #[trigger] slugs[j] != slug by {
            if j > 0 {
                assert(slugs.skip(1)[j - 1] == slugs[j]);
            }
        }
    }
}

impl StoredSkill {
    /// What the catalog shows of this skill.
    pub fn summary(&self) -> (summary: SkillSummary)
        ensures
            summary@ == shown(self@),
    {
        SkillSummary {
            slug: self.slug.clone(),
            title: self.title.clone(),
            summary: self.summary.clone(),
            path: None,
        }
    }

    /// The same skill once more.
    pub fn copy(&self) -> (copy: StoredSkill)
        ensures
            copy@ == self@,
    {
        StoredSkill {
            slug: self.slug.clone(),
            title: self.title.clone(),
            summary: self.summary.clone(),
            prompt: self.prompt.clone(),
        }
    }
}

impl SkillSummary {
    /// The same summary once more.
    pub fn copy(&self) -> (copy: SkillSummary)
        ensures
            copy@ == self@,
    {
        SkillSummary {
            slug: self.slug.clone(),
            title: self.title.clone(),
            summary: self.summary.clone(),
            path: match &self.path {
                Some(path) => Some(path.clone()),
                None => None,
            },
        }
    }

    /// The summary as JSON.
    pub fn to_json(&self) -> (json: Json)
        ensures
            json@ == summary_json(self@),
    {
        let json = Fields::new()
            .with("slug", Json::text(self.slug.as_str()))
            .with("title", Json::text(self.title.as_str()))
            .with("summary", Json::text(self.summary.as_str()))
            .with("path", Json::optional_text(&self.path))
            .finish();
        assert(json@->Object_0 =~= summary_json(self@)->Object_0);
        json
    }
}

/// Where the first skill with this slug stands in a catalog.
fn find_summary(skills: &Vec<SkillSummary>, slug: &str) -> (at: usize)
    ensures
        at == slug_at(slugs(summaries(skills@)), slug@),
        at <= skills@.len(),
{
    let ghost all = slugs(summaries(skills@));
    let mut i: usize = 0;
    while i < skills.len()
        invariant
            i <= skills@.len(),
            all == slugs(summaries(skills@)),
            forall|j: int| 0 <= j < i ==> all[j] != slug@,
        decreases skills@.len() - i,
    {
        assert(all[i as int] == skills@[i as int].slug@);
        if same_text(skills[i].slug.as_str(), slug) {
            proof {
                lemma_slug_at(all, slug@, i as int);
            }
            return i;
        }
        i += 1;
    }
    proof {
        lemma_slug_at(all, slug@, i as int);
    }
    i
}

/// Where the first saved skill with this slug stands.
fn find_stored(skills: &Vec<StoredSkill>, slug: &str) -> (at: usize)
    ensures
        at == slug_at(stored_slugs(stored_skills(skills@)), slug@),
        at <= skills@.len(),
{
    let ghost all = stored_slugs(stored_skills(skills@));
    let mut i: usize = 0;
    while i < skills.len()
        invariant
            i <= skills@.len(),
            all == stored_slugs(stored_skills(skills@)),
            forall|j: int| 0 <= j < i ==> all[j] != slug@,
        decreases skills@.len() - i,
    {
        assert(all[i as int] == skills@[i as int].slug@);
        if same_text(skills[i].slug.as_str(), slug) {
            proof {
                lemma_slug_at(all, slug@, i as int);
            }
            return i;
        }
        i += 1;
    }
    proof {
        lemma_slug_at(all, slug@, i as int);
    }
    i
}

/// The shipped skills with the saved ones put in: a saved skill takes the place of the one with
/// its slug, or goes to the end.
pub fn merge_skill_summaries(
    defaults: Vec<SkillSummary>,
    custom: &Vec<StoredSkill>,
) -> (catalog: Vec<SkillSummary>)
    ensures
        summaries(catalog@) == merged(summaries(defaults@), stored_skills(custom@)),
{
    let ghost shipped = summaries(defaults@);
    let mut catalog = defaults;
    let mut i: usize = 0;
    while i < custom.len()
        invariant
            i <= custom@.len(),
            summaries(catalog@) == merged(shipped, stored_skills(custom@.take(i as int))),
        decreases custom@.len() - i,
    {
        let ghost before = summaries(catalog@);
        let summary = custom[i].summary();
        let ghost added = summary@;
        let at = find_summary(&catalog, summary.slug.as_str());
        if at < catalog.len() {
            catalog.set(at, summary);
        } else {
            catalog.push(summary);
        }
        assert(summaries(catalog@) =~= with_summary(before, added));
        assert(stored_skills(custom@.take(i + 1)).drop_last() =~= stored_skills(
            custom@.take(i as int),
        ));
        i += 1;
    }
    assert(custom@.take(i as int) =~= custom@);
    catalog
}

/// The saved skills, of which there are none where storage holds no readable list.
pub fn load_custom_skills(stored: Option<Vec<StoredSkill>>) -> (skills: Vec<StoredSkill>)
    ensures
        stored_skills(skills@) == match stored {
            Some(stored) => stored_skills(stored@),
            None => Seq::empty(),
        },
{
    match stored {
        Some(stored) => stored,
        None => {
            let none: Vec<StoredSkill> = Vec::new();
            assert(stored_skills(none@) =~= Seq::empty());
            none
        },
    }
}

/// The catalog: the shipped skills as they were fetched, with the saved ones put in.
pub fn load_skills(
    defaults: Result<Vec<SkillSummary>, String>,
    custom: &Vec<StoredSkill>,
) -> (catalog: Result<Vec<SkillSummary>, String>)
    ensures
        match defaults {
            Ok(defaults) => catalog matches Ok(catalog) && summaries(catalog@) == merged(
                summaries(defaults@),
                stored_skills(custom@),
            ),
            Err(fault) => catalog == Err::<Vec<SkillSummary>, String>(fault),
        },
{
    match defaults {
        Ok(defaults) => Ok(merge_skill_summaries(defaults, custom)),
        Err(fault) => Err(fault),
    }
}

/// Puts a skill among the saved ones, in the place of the one with its slug or at the end.
pub fn save_skill(custom: &mut Vec<StoredSkill>, stored: &StoredSkill)
    ensures
        stored_skills(final(custom)@) == with_stored(stored_skills(old(custom)@), stored@),
{
    let at = find_stored(custom, stored.slug.as_str());
    if at < custom.len() {
        custom.set(at, stored.copy());
    } else {
        custom.push(stored.copy());
    }
    assert(stored_skills(custom@) =~= with_stored(stored_skills(old(custom)@), stored@));
}

/// Takes every saved skill with this slug out, and says whether there was one.
pub fn delete_skill(custom: &mut Vec<StoredSkill>, slug: &str) -> (deleted: bool)
    ensures
        stored_skills(final(custom)@) == without_slug(stored_skills(old(custom)@), slug@),
        deleted == stored_slugs(stored_skills(old(custom)@)).contains(slug@),
{
    let ghost all = stored_skills(custom@);
    let mut kept: Vec<StoredSkill> = Vec::new();
    let mut deleted = false;
    let mut i: usize = 0;
    proof {
        reveal(Seq::filter);
        assert(all.take(0).filter(|skill: StoredView| skill.slug != slug@) =~= Seq::empty());
        assert(stored_skills(kept@) =~= Seq::empty());
    }
    while i < custom.len()
        invariant
            i <= custom@.len(),
            all == stored_skills(custom@),
            stored_skills(kept@) == without_slug(all.take(i as int), slug@),
            deleted == exists|j: int| 0 <= j < i && #[trigger] stored_slugs(all)[j] == slug@,
        decreases custom@.len() - i,
    {
        proof {
            reveal(Seq::filter);
            assert(all.take(i + 1).drop_last() =~= all.take(i as int));
            assert(all.take(i + 1).last() == custom@[i as int]@);
            assert(stored_slugs(all)[i as int] == custom@[i as int].slug@);
        }
        if same_text(custom[i].slug.as_str(), slug) {
            deleted = true;
        } else {
            let ghost before = stored_skills(kept@);
            kept.push(custom[i].copy());
            assert(stored_skills(kept@) =~= before.push(custom@[i as int]@));
        }
        i += 1;
    }
    assert(all.take(i as int) =~= all);
    *custom = kept;
    deleted
}

/// What becomes of the storage entry of the saved skills.
#[derive(Clone, Copy, Debug, PartialEq, Eq, Structural)]
pub enum SkillsWrite {
    /// The entry is removed.
    Remove,
    /// The entry is written anew.
    Write,
}

/// An empty list of saved skills leaves no storage entry behind.
pub fn save_custom_skills(skills: &Vec<StoredSkill>) -> (write: SkillsWrite)
    ensures
        write == if skills@.len() == 0 {
            SkillsWrite::Remove
        } else {
            SkillsWrite::Write
        },
{
    if skills.len() == 0 {
        SkillsWrite::Remove
    } else {
        SkillsWrite::Write
    }
}

// ── The skills tool ─────────────────────────────────────────────────────

/// What the skills tool is asked to do.
#[derive(Debug)]
pub enum SkillsRequest {
    List,
    Save(StoredSkill),
    Delete(String),
}

/// The texts of a `SkillsRequest`.
pub enum SkillsRequestView {
    List,
    Save(StoredView),
    Delete(Seq<char>),
}

impl View for SkillsRequest {
    type V = SkillsRequestView;

    open spec fn view(&self) -> SkillsRequestView {
        match *self {
            SkillsRequest::List => SkillsRequestView::List,
            SkillsRequest::Save(stored) => SkillsRequestView::Save(stored@),
            SkillsRequest::Delete(slug) => SkillsRequestView::Delete(slug@),
        }
    }
}

/// What the arguments of the skills tool ask for, or the message that refuses them.
pub open spec fn skills_asked(
    action: Seq<char>,
    slug: Option<Seq<char>>,
    title: Option<Seq<char>>,
    summary: Option<Seq<char>>,
    prompt: Option<Seq<char>>,
) -> Result<SkillsRequestView, Seq<char>> {
    if action == "list"@ {
        Ok(SkillsRequestView::List)
    } else if action == "save"@ {
        match (slug, title, summary, prompt) {
            (None, _, _, _) => Err("skills save requires a slug"@),
            (_, None, _, _) => Err("skills save requires a title"@),
            (_, _, None, _) => Err("skills save requires a summary"@),
            (_, _, _, None) => Err("skills save requires a prompt"@),
            (Some(slug), Some(title), Some(summary), Some(prompt)) => Ok(
                SkillsRequestView::Save(StoredView { slug, title, summary, prompt }),
            ),
        }
    } else if action == "delete"@ {
        match slug {
            None => Err("skills delete requires a slug"@),
            Some(slug) => Ok(SkillsRequestView::Delete(slug)),
        }
    } else {
        Err("Unsupported skills action: "@ + action + ". Use list, save, or delete."@)
    }
}

/// Reads the arguments of the skills tool.
pub fn manage_skills(
    action: &str,
    slug: Option<String>,
    title: Option<String>,
    summary: Option<String>,
    prompt: Option<String>,
) -> (request: Result<SkillsRequest, String>)
    ensures
        match (
            request,
            skills_asked(
                action@,
                optional_view(slug),
                optional_view(title),
                optional_view(summary),
                optional_view(prompt),
            ),
        ) {
            (Ok(request), Ok(asked)) => request@ == asked,
            (Err(message), Err(text)) => message@ == text,
            _ => false,
        },
{
    if same_text(action, "list") {
        Ok(SkillsRequest::List)
    } else if same_text(action, "save") {
        let Some(slug) = slug else {
            return Err("skills save requires a slug".to_owned());
        };
        let Some(title) = title else {
            return Err("skills save requires a title".to_owned());
        };
        let Some(summary) = summary else {
            return Err("skills save requires a summary".to_owned());
        };
        let Some(prompt) = prompt else {
            return Err("skills save requires a prompt".to_owned());
        };
        Ok(SkillsRequest::Save(StoredSkill { slug, title, summary, prompt }))
    } else if same_text(action, "delete") {
        let Some(slug) = slug else {
            return Err("skills delete requires a slug".to_owned());
        };
        Ok(SkillsRequest::Delete(slug))
    } else {
        Err(
            "Unsupported skills action: ".to_owned().concat(action).concat(
                ". Use list, save, or delete.",
            ),
        )
    }
}

/// A catalog as JSON.
fn catalog_to_json(skills: &Vec<SkillSummary>) -> (json: Json)
    ensures
        json@ == catalog_json(summaries(skills@)),
{
    let mut items: Vec<Json> = Vec::new();
    let mut i: usize = 0;
    while i < skills.len()
        invariant
            i <= skills@.len(),
            array_view(items@) == catalog_json(summaries(skills@.take(i as int)))->Array_0,
        decreases skills@.len() - i,
    {
        let ghost before = items@;
        items.push(skills[i].to_json());
        assert(items@.drop_last() =~= before);
        proof {
            lemma_array_len(before);
        }
        assert(array_view(items@) =~= catalog_json(
            summaries(skills@.take(i + 1)),
        )->Array_0);
        i += 1;
    }
    assert(skills@.take(i as int) =~= skills@);
    Json::Array(items)
}

/// The reply that lists the catalog.
pub open spec fn list_reply_json(catalog: Seq<SummaryView>) -> JsonView {
    JsonView::Object(
        map!["action"@ => JsonView::Text("list"@), "skills"@ => catalog_json(catalog)],
    )
}

/// The reply after a skill was saved.
pub open spec fn save_reply_json(stored: StoredView, catalog: Seq<SummaryView>) -> JsonView {
    JsonView::Object(
        map![
            "action"@ => JsonView::Text("save"@),
            "skill"@ => summary_json(shown(stored)),
            "skills"@ => catalog_json(catalog),
        ],
    )
}

/// The reply after skills with a slug were deleted.
pub open spec fn delete_reply_json(
    slug: Seq<char>,
    deleted: bool,
    catalog: Seq<SummaryView>,
) -> JsonView {
    JsonView::Object(
        map![
            "action"@ => JsonView::Text("delete"@),
            "slug"@ => JsonView::Text(slug),
            "deleted"@ => JsonView::Bool(deleted),
            "skills"@ => catalog_json(catalog),
        ],
    )
}

/// The reply that lists the catalog.
pub fn list_reply(catalog: &Vec<SkillSummary>) -> (reply: Json)
    ensures
        reply@ == list_reply_json(summaries(catalog@)),
{
    let reply = Fields::new()
        .with("action", Json::text("list"))
        .with("skills", catalog_to_json(catalog))
        .finish();
    assert(reply@->Object_0 =~= list_reply_json(summaries(catalog@))->Object_0);
    reply
}

/// The reply after a skill was saved.
pub fn save_reply(stored: &StoredSkill, catalog: &Vec<SkillSummary>) -> (reply: Json)
    ensures
        reply@ == save_reply_json(stored@, summaries(catalog@)),
{
    let reply = Fields::new()
        .with("action", Json::text("save"))
        .with("skill", stored.summary().to_json())
        .with("skills", catalog_to_json(catalog))
        .finish();
    assert(reply@->Object_0 =~= save_reply_json(stored@, summaries(catalog@))->Object_0);
    reply
}

/// The reply after skills with a slug were deleted.
pub fn delete_reply(slug: &str, deleted: bool, catalog: &Vec<SkillSummary>) -> (reply: Json)
    ensures
        reply@ == delete_reply_json(slug@, deleted, summaries(catalog@)),
{
    let reply = Fields::new()
        .with("action", Json::text("delete"))
        .with("slug", Json::text(slug))
        .with("deleted", Json::Bool(deleted))
        .with("skills", catalog_to_json(catalog))
        .finish();
    assert(reply@->Object_0 =~= delete_reply_json(slug@, deleted, summaries(catalog@))->Object_0);
    reply
}

// ── Loading one skill ───────────────────────────────────────────────────

/// Where the full text of a skill comes from.
#[derive(Debug)]
pub enum SkillSource {
    /// The prompt of a saved skill.
    Prompt(String),
    /// A file of the site, by its path.
    Fetch(String),
    /// The summary itself, where a shipped skill has no file.
    Summary(SkillSummary),
    /// Nowhere: the message says so.
    Unknown(String),
}

/// Whether `source` is where the skill with this slug comes from: a saved skill before a shipped
/// one.
pub open spec fn comes_from(
    source: SkillSource,
    slug: Seq<char>,
    custom: Seq<StoredView>,
    catalog: Seq<SummaryView>,
) -> bool {
    let own = slug_at(stored_slugs(custom), slug);
    let shipped = slug_at(slugs(catalog), slug);
    if own < custom.len() {
        source matches SkillSource::Prompt(prompt) && prompt@ == custom[own as int].prompt
    } else if shipped < catalog.len() {
        match catalog[shipped as int].path {
            Some(path) => source matches SkillSource::Fetch(p) && p@ == path,
            None => source matches SkillSource::Summary(s) && s@ == catalog[shipped as int],
        }
    } else {
        source matches SkillSource::Unknown(message) && message@ == "Unknown skill: "@ + slug
    }
}

/// Finds where the full text of a skill comes from.
pub fn find_skill(slug: &str, custom: &Vec<StoredSkill>, catalog: &Vec<SkillSummary>) -> (source:
    SkillSource)
    ensures
        comes_from(source, slug@, stored_skills(custom@), summaries(catalog@)),
{
    let own = find_stored(custom, slug);
    if own < custom.len() {
        return SkillSource::Prompt(custom[own].prompt.clone());
    }
    let shipped = find_summary(catalog, slug);
    if shipped < catalog.len() {
        let skill = &catalog[shipped];
        assert(summaries(catalog@)[shipped as int] == skill@);
        return match &skill.path {
            Some(path) => SkillSource::Fetch(path.clone()),
            None => SkillSource::Summary(skill.copy()),
        };
    }
    SkillSource::Unknown("Unknown skill: ".to_owned().concat(slug))
}

} // verus!
