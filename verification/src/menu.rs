//! The menu in which the model and its effort are chosen.
use vstd::prelude::*;

use crate::text::same_text;

verus! {

/// The model that answers where none was chosen.
pub const DEFAULT_MODEL: &'static str = "openai/gpt-5.4-nano";

/// The storage key of the chosen model.
pub const MODEL_STORAGE_KEY: &'static str = "fedigents.model";

/// The storage key of the chosen effort.
pub const THINKING_EFFORT_KEY: &'static str = "fedigents.thinking_effort";

/// A model that can be chosen. Cheaper models have a smaller rank.
#[derive(Clone, Debug)]
pub struct PpqModel {
    pub id: String,
    pub name: String,
    pub popular: bool,
    pub expensive: bool,
    pub rank: i64,
    /// The price as it is shown, where there is one.
    pub price: Option<String>,
}

/// The two lists of the menu.
#[derive(Debug)]
pub struct ModelMenu {
    pub popular: Vec<PpqModel>,
    pub others: Vec<PpqModel>,
}

/// Whether a model with this id is among these.
pub open spec fn offers(models: Seq<PpqModel>, id: Seq<char>) -> bool {
    exists|i: int| 0 <= i < models.len() && (#[trigger] models[i]).id@ == id
}

/// Whether a model with this id is among these and is expensive.
pub open spec fn offers_expensive(models: Seq<PpqModel>, id: Seq<char>) -> bool {
    exists|i: int|
        0 <= i < models.len() && (#[trigger] models[i]).id@ == id && models[i].expensive
}

/// Whether no model stands before one with a smaller rank.
pub open spec fn ranked(models: Seq<PpqModel>) -> bool {
    forall|i: int, j: int|
        0 <= i <= j < models.len() ==> (#[trigger] models[i]).rank <= (#[trigger] models[j]).rank
}

/// The models of one rank, in order.
pub open spec fn of_rank(models: Seq<PpqModel>, rank: i64) -> Seq<PpqModel> {
    models.filter(|model: PpqModel| model.rank == rank)
}

/// Whether `sorted` holds these models by rank, and models of one rank in the order in which they
/// came.
pub open spec fn sorts(sorted: Seq<PpqModel>, models: Seq<PpqModel>) -> bool {
    ranked(sorted) && forall|rank: i64| #[trigger] of_rank(sorted, rank) == of_rank(models, rank)
}

/// The models that are popular, or those that are not, in order.
pub open spec fn with_popularity(models: Seq<PpqModel>, popular: bool) -> Seq<PpqModel> {
    models.filter(|model: PpqModel| model.popular == popular)
}

/// Whether a model is the stand-in for a chosen id that is not offered.
pub open spec fn stands_in(model: PpqModel, id: Seq<char>, default_rank: i64) -> bool {
    &&& model.id@ == id
    &&& model.name@ == id
    &&& !model.popular
    &&& !model.expensive
    &&& model.rank == default_rank
    &&& model.price is None
}

impl PpqModel {
    /// The same model once more.
    pub fn copy(&self) -> (copy: PpqModel)
        ensures
            copy == *self,
    {
        PpqModel {
            id: self.id.clone(),
            name: self.name.clone(),
            popular: self.popular,
            expensive: self.expensive,
            rank: self.rank,
            price: match &self.price {
                Some(price) => Some(price.clone()),
                None => None,
            },
        }
    }
}

/// Whether a model with this id is among these and is expensive.
pub fn is_expensive(models: &Vec<PpqModel>, id: &str) -> (r: bool)
    ensures
        r == offers_expensive(models@, id@),
{
    let mut i: usize = 0;
    while i < models.len()
        invariant
            i <= models@.len(),
            forall|j: int|
                0 <= j < i ==> !((#[trigger] models@[j]).id@ == id@ && models@[j].expensive),
        decreases models@.len() - i,
    {
        if models[i].expensive && same_text(models[i].id.as_str(), id) {
            assert(models@[i as int].id@ == id@);
            return true;
        }
        i += 1;
    }
    false
}

fn is_offered(models: &Vec<PpqModel>, id: &str) -> (r: bool)
    ensures
        r == offers(models@, id@),
{
    let mut i: usize = 0;
    while i < models.len()
        invariant
            i <= models@.len(),
            forall|j: int| 0 <= j < i ==> (#[trigger] models@[j]).id@ != id@,
        decreases models@.len() - i,
    {
        if same_text(models[i].id.as_str(), id) {
            assert(models@[i as int].id@ == id@);
            return true;
        }
        i += 1;
    }
    false
}

fn select(models: &Vec<PpqModel>, popular: bool) -> (selected: Vec<PpqModel>)
    ensures
        selected@ == with_popularity(models@, popular),
{
    let mut selected: Vec<PpqModel> = Vec::new();
    let mut i: usize = 0;
    proof {
        reveal(Seq::filter);
        assert(selected@ =~= with_popularity(models@.take(0), popular));
    }
    while i < models.len()
        invariant
            i <= models@.len(),
            selected@ == with_popularity(models@.take(i as int), popular),
        decreases models@.len() - i,
    {
        proof {
            reveal(Seq::filter);
            assert(models@.take(i + 1).drop_last() =~= models@.take(i as int));
        }
        if models[i].popular == popular {
            selected.push(models[i].copy());
        }
        i += 1;
    }
    assert(models@.take(i as int) =~= models@);
    selected
}

proof fn lemma_filter_insert(models: Seq<PpqModel>, at: int, model: PpqModel, rank: i64)
    requires
        0 <= at <= models.len(),
        forall|j: int| at <= j < models.len() ==> (#[trigger] models[j]).rank > model.rank,
    ensures
        of_rank(models.insert(at, model), rank) == if rank == model.rank {
            of_rank(models, rank).push(model)
        } else {
            of_rank(models, rank)
        },
    decreases models.len() - at,
{
    reveal(Seq::filter);
    let after = models.insert(at, model);
    if at == models.len() {
        assert(after.drop_last() =~= models);
        assert(after.last() == model);
    } else {
        let shorter = models.drop_last();
        assert(forall|j: int| 0 <= j < shorter.len() ==> shorter[j] == models[j]);
        lemma_filter_insert(shorter, at, model, rank);
        assert(after.drop_last() =~= shorter.insert(at, model));
        assert(after.last() == models.last());
    }
}

/// Puts models in the order of their rank, and leaves models of one rank in the order in which
/// they come.
pub fn sort_by_rank(models: Vec<PpqModel>) -> (sorted: Vec<PpqModel>)
    ensures
        sorts(sorted@, models@),
{
    let mut sorted: Vec<PpqModel> = Vec::new();
    let mut i: usize = 0;
    proof {
        assert forall|rank: i64| #[trigger] of_rank(sorted@, rank) == of_rank(
            models@.take(0),
            rank,
        ) by {
            assert(sorted@ =~= models@.take(0));
        }
    }
    while i < models.len()
        invariant
            i <= models@.len(),
            sorts(sorted@, models@.take(i as int)),
        decreases models@.len() - i,
    {
        let model = models[i].copy();
        let rank = model.rank;
        let mut at: usize = sorted.len();
        while at > 0 && sorted[at - 1].rank > rank
            invariant
                at <= sorted@.len(),
                forall|j: int| at <= j < sorted@.len() ==> (#[trigger] sorted@[j]).rank > rank,
            decreases at,
        {
            at -= 1;
        }
        let ghost before = sorted@;
        proof {
            assert forall|other: i64| #[trigger] of_rank(
                before.insert(at as int, model),
                other,
            ) == of_rank(models@.take(i + 1), other) by {
                reveal(Seq::filter);
                lemma_filter_insert(before, at as int, model, other);
                assert(of_rank(before, other) == of_rank(models@.take(i as int), other));
                assert(models@.take(i + 1).drop_last() =~= models@.take(i as int));
            }
            assert(at > 0 ==> forall|j: int| 0 <= j < at ==> (#[trigger] before[j]).rank <= rank);
        }
        sorted.insert(at, model);
        i += 1;
    }
    assert(models@.take(i as int) =~= models@);
    sorted
}

/// The menu: popular models and the others, each by rank. A chosen model that is not offered heads
/// the others before they are put in order.
pub fn model_menu(models: &Vec<PpqModel>, current: &str, default_rank: i64) -> (menu: ModelMenu)
    ensures
        sorts(menu.popular@, with_popularity(models@, true)),
        if offers(models@, current@) {
            sorts(menu.others@, with_popularity(models@, false))
        } else {
            exists|model: PpqModel| #[trigger]
                stands_in(model, current@, default_rank) && sorts(
                    menu.others@,
                    seq![model] + with_popularity(models@, false),
                )
        },
{
    let popular = select(models, true);
    let mut others = select(models, false);
    if !is_offered(models, current) {
        let model = PpqModel {
            id: current.to_owned(),
            name: current.to_owned(),
            popular: false,
            expensive: false,
            rank: default_rank,
            price: None,
        };
        let ghost added = model;
        let ghost before = others@;
        others.insert(0, model);
        assert(others@ =~= seq![added] + before);
        assert(stands_in(added, current@, default_rank));
        return ModelMenu { popular: sort_by_rank(popular), others: sort_by_rank(others) };
    }
    ModelMenu { popular: sort_by_rank(popular), others: sort_by_rank(others) }
}

/// A model as the menu shows it: with its price, where it has one.
pub fn format_model_label(model: &PpqModel) -> (label: String)
    ensures
        label@ == match model.price {
            Some(price) => model.name@ + " ($"@ + price@ + "/M out)"@,
            None => model.name@,
        },
{
    match &model.price {
        Some(price) => model.name.as_str().to_owned().concat(" ($").concat(price.as_str()).concat(
            "/M out)",
        ),
        None => model.name.clone(),
    }
}

// ── Effort ──────────────────────────────────────────────────────────────

/// The effort as the menu names it.
pub open spec fn effort_name(effort: Seq<char>) -> Seq<char> {
    if effort == "low"@ {
        "Low"@
    } else if effort == "medium"@ {
        "Medium"@
    } else if effort == "high"@ {
        "High"@
    } else {
        "Off"@
    }
}

/// The position of the slider for an effort.
pub open spec fn effort_position(effort: Seq<char>) -> Seq<char> {
    if effort == "low"@ {
        "1"@
    } else if effort == "medium"@ {
        "2"@
    } else if effort == "high"@ {
        "3"@
    } else {
        "0"@
    }
}

/// The effort for a position of the slider.
pub open spec fn effort_at(position: Seq<char>) -> Seq<char> {
    if position == "1"@ {
        "low"@
    } else if position == "2"@ {
        "medium"@
    } else if position == "3"@ {
        "high"@
    } else {
        ""@
    }
}

/// The effort as the menu names it.
pub fn effort_label(effort: &str) -> (label: &'static str)
    ensures
        label@ == effort_name(effort@),
{
    if same_text(effort, "low") {
        "Low"
    } else if same_text(effort, "medium") {
        "Medium"
    } else if same_text(effort, "high") {
        "High"
    } else {
        "Off"
    }
}

/// The position of the slider for an effort.
pub fn effort_slider(effort: &str) -> (position: &'static str)
    ensures
        position@ == effort_position(effort@),
{
    if same_text(effort, "low") {
        "1"
    } else if same_text(effort, "medium") {
        "2"
    } else if same_text(effort, "high") {
        "3"
    } else {
        "0"
    }
}

/// The effort for a position of the slider.
pub fn effort_from_slider(position: &str) -> (effort: &'static str)
    ensures
        effort@ == effort_at(position@),
{
    if same_text(position, "1") {
        "low"
    } else if same_text(position, "2") {
        "medium"
    } else if same_text(position, "3") {
        "high"
    } else {
        ""
    }
}

/// The effort that the model is asked for: none where it is off.
pub fn chosen_effort(effort: String) -> (chosen: Option<String>)
    ensures
        chosen == if effort@.len() == 0 {
            None
        } else {
            Some(effort)
        },
{
    if effort.as_str().is_empty() {
        None
    } else {
        Some(effort)
    }
}

/// An effort that the slider sets is shown at the position that set it, and any effort that the
/// menu can show is set again by its position.
pub proof fn law_slider_and_effort_agree(position: Seq<char>, effort: Seq<char>)
    ensures
        effort_position(effort_at(position)) == if position == "1"@ || position == "2"@
            || position == "3"@ {
            position
        } else {
            "0"@
        },
        effort_at(effort_position(effort)) == if effort == "low"@ || effort == "medium"@ || effort
            == "high"@ {
            effort
        } else {
            ""@
        },
{
    reveal_strlit("low");
    reveal_strlit("medium");
    reveal_strlit("high");
    reveal_strlit("");
    reveal_strlit("0");
    reveal_strlit("1");
    reveal_strlit("2");
    reveal_strlit("3");
    assert("low"@.len() == 3 && "medium"@.len() == 6 && "high"@.len() == 4 && ""@.len() == 0);
    assert("0"@[0] == '0' && "1"@[0] == '1' && "2"@[0] == '2' && "3"@[0] == '3');
}

/// The lists of the menu are sorted: no model stands behind a dearer one, models of one rank stand
/// in the order in which they came, and a list holds the models that went into it and no others.
pub proof fn law_menus_are_sorted(
    sorted: Seq<PpqModel>,
    models: Seq<PpqModel>,
    i: int,
    j: int,
    model: PpqModel,
)
    requires
        sorts(sorted, models),
        0 <= i <= j < sorted.len(),
    ensures
        sorted[i].rank <= sorted[j].rank,
        sorted.contains(model) <==> models.contains(model),
        sorted.filter(|m: PpqModel| m.rank == model.rank) == models.filter(
            |m: PpqModel| m.rank == model.rank,
        ),
{
    let alike = |m: PpqModel| m.rank == model.rank;
    assert(of_rank(sorted, model.rank) == of_rank(models, model.rank));
    if sorted.contains(model) {
        let k = sorted.index_of(model);
        sorted.lemma_filter_contains(alike, k);
        models.lemma_filter_contains_rev(alike, model);
    }
    if models.contains(model) {
        let k = models.index_of(model);
        models.lemma_filter_contains(alike, k);
        sorted.lemma_filter_contains_rev(alike, model);
    }
}

/// Each model that is offered goes to the list of popular models exactly where it is popular, and
/// otherwise to the others, in order.
pub proof fn law_models_go_to_their_list(models: Seq<PpqModel>, model: PpqModel)
    ensures
        with_popularity(models.push(model), model.popular) == with_popularity(
            models,
            model.popular,
        ).push(model),
        with_popularity(models.push(model), !model.popular) == with_popularity(
            models,
            !model.popular,
        ),
        with_popularity(Seq::empty(), true).len() == 0,
        with_popularity(Seq::empty(), false).len() == 0,
{
    reveal(Seq::filter);
    assert(models.push(model).drop_last() =~= models);
}

/// A model is offered exactly where one has its id, and is warned of exactly where one with its id
/// is expensive. The stand-in for a model that is not offered has its id and is not warned of.
pub proof fn law_models_are_found_by_id(
    models: Seq<PpqModel>,
    i: int,
    id: Seq<char>,
    model: PpqModel,
    rank: i64,
)
    ensures
        0 <= i < models.len() ==> offers(models, models[i].id@),
        0 <= i < models.len() && models[i].expensive ==> offers_expensive(models, models[i].id@),
        offers_expensive(models, id) ==> offers(models, id),
        (forall|k: int| 0 <= k < models.len() ==> (#[trigger] models[k]).id@ != id) ==> !offers(
            models,
            id,
        ),
        (forall|k: int| 0 <= k < models.len() ==> !(#[trigger] models[k]).expensive)
            ==> !offers_expensive(models, id),
        stands_in(model, id, rank) ==> model.id@ == id && model.name@ == id && !model.expensive
            && !model.popular && model.rank == rank,
{
    if offers_expensive(models, id) {
        let k = choose|k: int|
            0 <= k < models.len() && (#[trigger] models[k]).id@ == id && models[k].expensive;
        assert(models[k].id@ == id);
    }
}

/// Different efforts have different names in the menu, and everything that is no effort is off.
pub proof fn law_efforts_are_told_apart(a: Seq<char>, b: Seq<char>)
    ensures
        effort_name(a) == effort_name(b) <==> effort_position(a) == effort_position(b),
        effort_position(a) == "0"@ <==> !(a == "low"@ || a == "medium"@ || a == "high"@),
        effort_name("low"@) == "Low"@ && effort_name("medium"@) == "Medium"@ && effort_name("high"@)
            == "High"@,
{
    reveal_strlit("low");
    reveal_strlit("medium");
    reveal_strlit("high");
    reveal_strlit("Low");
    reveal_strlit("Medium");
    reveal_strlit("High");
    reveal_strlit("Off");
    reveal_strlit("0");
    reveal_strlit("1");
    reveal_strlit("2");
    reveal_strlit("3");
    assert("low"@.len() == 3 && "medium"@.len() == 6 && "high"@.len() == 4);
    assert("Low"@.len() == 3 && "Medium"@.len() == 6 && "High"@.len() == 4 && "Off"@.len() == 3);
    assert("Low"@[0] != "Off"@[0]);
    assert("0"@[0] == '0' && "1"@[0] == '1' && "2"@[0] == '2' && "3"@[0] == '3');
}

/// Every model that is offered stands in the menu, in the list that it belongs to, and the model
/// that is chosen stands there too, offered or not.
pub proof fn law_menus_hold_every_model(
    models: Vec<PpqModel>,
    current: &str,
    rank: i64,
    menu: ModelMenu,
    i: int,
)
    requires
        call_ensures(model_menu, (&models, current, rank), menu),
    ensures
        0 <= i < models@.len() && models@[i].popular ==> menu.popular@.contains(models@[i]),
        0 <= i < models@.len() && !models@[i].popular ==> menu.others@.contains(models@[i]),
        offers(menu.popular@, current@) || offers(menu.others@, current@),
        ranked(menu.popular@),
        ranked(menu.others@),
{
    let (all, id) = (models@, current@);
    let (popular, others) = (with_popularity(all, true), with_popularity(all, false));
    assert forall|k: int| 0 <= k < all.len() implies (all[k].popular ==> popular.contains(
        #[trigger] all[k],
    )) && (!all[k].popular ==> others.contains(all[k])) by {
        if all[k].popular {
            all.lemma_filter_contains(|model: PpqModel| model.popular == true, k);
        } else {
            all.lemma_filter_contains(|model: PpqModel| model.popular == false, k);
        }
    }
    assert forall|model: PpqModel| #[trigger] popular.contains(model) implies menu.popular@.contains(
        model,
    ) by {
        lemma_sorted_holds(menu.popular@, popular, model);
    }
    if offers(all, id) {
        assert forall|model: PpqModel| #[trigger] others.contains(model) implies menu.others@.contains(
            model,
        ) by {
            lemma_sorted_holds(menu.others@, others, model);
        }
        let k = choose|k: int| 0 <= k < all.len() && (#[trigger] all[k]).id@ == id;
        if all[k].popular {
            lemma_held_is_offered(menu.popular@, all[k]);
        } else {
            lemma_held_is_offered(menu.others@, all[k]);
        }
    } else {
        let model = choose|model: PpqModel| #[trigger]
            stands_in(model, id, rank) && sorts(menu.others@, seq![model] + others);
        let with_it = seq![model] + others;
        assert forall|other: PpqModel| #[trigger] others.contains(other) implies menu.others@.contains(
            other,
        ) by {
            let k = others.index_of(other);
            assert(with_it[k + 1] == other);
            lemma_sorted_holds(menu.others@, with_it, other);
        }
        assert(with_it[0] == model);
        lemma_sorted_holds(menu.others@, with_it, model);
        lemma_held_is_offered(menu.others@, model);
    }
}

proof fn lemma_sorted_holds(sorted: Seq<PpqModel>, models: Seq<PpqModel>, model: PpqModel)
    requires
        sorts(sorted, models),
        models.contains(model),
    ensures
        sorted.contains(model),
{
    let alike = |m: PpqModel| m.rank == model.rank;
    assert(of_rank(sorted, model.rank) == of_rank(models, model.rank));
    let k = models.index_of(model);
    models.lemma_filter_contains(alike, k);
    sorted.lemma_filter_contains_rev(alike, model);
}

proof fn lemma_held_is_offered(models: Seq<PpqModel>, model: PpqModel)
    requires
        models.contains(model),
    ensures
        offers(models, model.id@),
{
    let k = models.index_of(model);
    assert(models[k].id@ == model.id@);
}

/// A model is shown by its name, and with its price where it has one. The effort that is asked for
/// is the one that is set, and none where it is off.
pub proof fn law_models_are_shown_by_name(
    model: PpqModel,
    label: String,
    effort: String,
    chosen: Option<String>,
)
    requires
        call_ensures(format_model_label, (&model,), label),
        call_ensures(chosen_effort, (effort,), chosen),
    ensures
        model.name@.is_prefix_of(label@),
        model.price is None ==> label@ == model.name@,
        model.price matches Some(price) ==> label@ == model.name@ + " ($"@ + price@ + "/M out)"@,
        chosen is None <==> effort@.len() == 0,
        chosen matches Some(text) ==> text == effort,
{
    assert(label@.subrange(0, model.name@.len() as int) =~= model.name@);
}

} // verus!
