//! Scorecards.

use vstd::prelude::*;

use crate::error::text_option;
use crate::flags::{display_option, unwrap_or_raw, unwrapped, DisplayValueArg, OutputMode};
use crate::json::{put, Doc, Json};
use crate::query::param_display;
use crate::request::{
    delete, get, lemma_param_flag, lemma_param_push, lemma_param_with, no_query, number_option,
    pairs, param, param_in, param_number, param_number_option, param_option, push_flag, with_body,
    with_flag, with_param, Call, Method, Request,
};
use crate::text::{digits, whole, whole_decimal};

verus! {

/// The commands on scorecards.
#[derive(Debug)]
pub enum ScoresSub {
    List(Box<ScoresListArgs>),
    Favorite(ScoresFavoriteArgs),
    Unfavorite(ScoresFavoriteArgs),
}

/// The flags of a list.
#[derive(Debug)]
pub struct ScoresListArgs {
    pub uuid: Option<String>,
    pub breakdown: Option<String>,
    pub breakdown_relation: Option<String>,
    pub elements_filter: Option<String>,
    pub display: Option<DisplayValueArg>,
    pub favorites: bool,
    pub key: bool,
    pub target: bool,
    pub contains: Option<String>,
    pub tags: Option<String>,
    pub per_page: u32,
    pub page: u32,
    pub sort_by: Option<SortBy>,
    pub sort_dir: Option<SortDir>,
    pub display_value: Option<DisplayValueArg>,
    pub exclude_reference_link: bool,
    pub include_scores: bool,
    pub from: Option<String>,
    pub to: Option<String>,
    pub step: Option<u32>,
    pub limit: Option<i64>,
    pub include_available_breakdowns: bool,
    pub include_available_aggregates: bool,
    pub include_realtime: bool,
    pub include_target_color_scheme: bool,
    pub include_forecast_scores: bool,
    pub include_trendline_scores: bool,
    pub include_prediction_interval: bool,
}

/// The flags of a favorite.
#[derive(Debug)]
pub struct ScoresFavoriteArgs {
    pub uuid: String,
}

/// The field that a list is sorted by.
#[derive(Debug, Clone, Copy, PartialEq, Eq, Structural)]
pub enum SortBy {
    Value,
    Change,
    ChangePerc,
    Gap,
    GapPerc,
    Name,
    Order,
    Default,
    IndicatorGroup,
    Frequency,
    Target,
    Date,
    Direction,
}

/// The direction that a list is sorted in.
#[derive(Debug, Clone, Copy, PartialEq, Eq, Structural)]
pub enum SortDir {
    Asc,
    Desc,
}

impl SortBy {
    /// The value of the parameter.
    pub open spec fn text(self) -> Seq<char> {
        match self {
            SortBy::Value => "VALUE"@,
            SortBy::Change => "CHANGE"@,
            SortBy::ChangePerc => "CHANGEPERC"@,
            SortBy::Gap => "GAP"@,
            SortBy::GapPerc => "GAPPERC"@,
            SortBy::Name => "NAME"@,
            SortBy::Order => "ORDER"@,
            SortBy::Default => "DEFAULT"@,
            SortBy::IndicatorGroup => "INDICATOR_GROUP"@,
            SortBy::Frequency => "FREQUENCY"@,
            SortBy::Target => "TARGET"@,
            SortBy::Date => "DATE"@,
            SortBy::Direction => "DIRECTION"@,
        }
    }

    /// The value of the parameter.
    pub fn as_str(self) -> (r: &'static str)
        ensures
            r@ == self.text(),
    {
        match self {
            SortBy::Value => "VALUE",
            SortBy::Change => "CHANGE",
            SortBy::ChangePerc => "CHANGEPERC",
            SortBy::Gap => "GAP",
            SortBy::GapPerc => "GAPPERC",
            SortBy::Name => "NAME",
            SortBy::Order => "ORDER",
            SortBy::Default => "DEFAULT",
            SortBy::IndicatorGroup => "INDICATOR_GROUP",
            SortBy::Frequency => "FREQUENCY",
            SortBy::Target => "TARGET",
            SortBy::Date => "DATE",
            SortBy::Direction => "DIRECTION",
        }
    }
}

impl SortDir {
    /// The value of the parameter.
    pub open spec fn text(self) -> Seq<char> {
        match self {
            SortDir::Asc => "ASC"@,
            SortDir::Desc => "DESC"@,
        }
    }

    /// The value of the parameter.
    pub fn as_str(self) -> (r: &'static str)
        ensures
            r@ == self.text(),
    {
        match self {
            SortDir::Asc => "ASC",
            SortDir::Desc => "DESC",
        }
    }
}

/// The text of an optional field.
pub open spec fn sort_option(s: Option<SortBy>) -> Option<Seq<char>> {
    match s {
        Some(s) => Some(s.text()),
        None => None,
    }
}

/// The text of an optional direction.
pub open spec fn direction_option(d: Option<SortDir>) -> Option<Seq<char>> {
    match d {
        Some(d) => Some(d.text()),
        None => None,
    }
}

/// The text of an optional whole number.
pub open spec fn whole_option(n: Option<i64>) -> Option<Seq<char>> {
    match n {
        Some(n) => Some(whole(n as int)),
        None => None,
    }
}

impl ScoresListArgs {
    /// The parameters: one for each flag that was given, and the page always.
    pub open spec fn params(self) -> Seq<(Seq<char>, Seq<char>)> {
        let q = Seq::<(Seq<char>, Seq<char>)>::empty();
        let q = with_param(q, "sysparm_uuid"@, text_option(self.uuid));
        let q = with_param(q, "sysparm_breakdown"@, text_option(self.breakdown));
        let q = with_param(q, "sysparm_breakdown_relation"@, text_option(self.breakdown_relation));
        let q = with_param(q, "sysparm_elements_filter"@, text_option(self.elements_filter));
        let q = with_param(q, "sysparm_display"@, display_option(self.display));
        let q = with_flag(q, "sysparm_favorites"@, self.favorites);
        let q = with_flag(q, "sysparm_key"@, self.key);
        let q = with_flag(q, "sysparm_target"@, self.target);
        let q = with_param(q, "sysparm_contains"@, text_option(self.contains));
        let q = with_param(q, "sysparm_tags"@, text_option(self.tags));
        let q = q.push(("sysparm_per_page"@, digits(self.per_page as nat)));
        let q = q.push(("sysparm_page"@, digits(self.page as nat)));
        let q = with_param(q, "sysparm_sortby"@, sort_option(self.sort_by));
        let q = with_param(q, "sysparm_sortdir"@, direction_option(self.sort_dir));
        let q = with_param(q, "sysparm_display_value"@, display_option(self.display_value));
        let q = with_flag(q, "sysparm_exclude_reference_link"@, self.exclude_reference_link);
        let q = with_flag(q, "sysparm_include_scores"@, self.include_scores);
        let q = with_param(q, "sysparm_from"@, text_option(self.from));
        let q = with_param(q, "sysparm_to"@, text_option(self.to));
        let q = with_param(q, "sysparm_step"@, number_option(self.step));
        let q = with_param(q, "sysparm_limit"@, whole_option(self.limit));
        let q = with_flag(q, "sysparm_include_available_breakdowns"@, self.include_available_breakdowns);
        let q = with_flag(q, "sysparm_include_available_aggregates"@, self.include_available_aggregates);
        let q = with_flag(q, "sysparm_include_realtime"@, self.include_realtime);
        let q = with_flag(q, "sysparm_include_target_color_scheme"@, self.include_target_color_scheme);
        let q = with_flag(q, "sysparm_include_forecast_scores"@, self.include_forecast_scores);
        let q = with_flag(q, "sysparm_include_trendline_scores"@, self.include_trendline_scores);
        let q = with_flag(q, "sysparm_include_prediction_interval"@, self.include_prediction_interval);
        q
    }
}

/// The request for a list.
#[verifier::rlimit(50)]
pub fn list(args: &ScoresListArgs) -> (r: Request)
    ensures
        r@ == (Call {
            method: Method::Get,
            path: "/api/now/pa/scorecards"@,
            query: args.params(),
            body: None,
        }),
{
    let mut q = no_query();
    param_option(&mut q, "sysparm_uuid", &args.uuid);
    param_option(&mut q, "sysparm_breakdown", &args.breakdown);
    param_option(&mut q, "sysparm_breakdown_relation", &args.breakdown_relation);
    param_option(&mut q, "sysparm_elements_filter", &args.elements_filter);
    param_display(&mut q, "sysparm_display", args.display);
    push_flag(&mut q, "sysparm_favorites", args.favorites);
    push_flag(&mut q, "sysparm_key", args.key);
    push_flag(&mut q, "sysparm_target", args.target);
    param_option(&mut q, "sysparm_contains", &args.contains);
    param_option(&mut q, "sysparm_tags", &args.tags);
    param_number(&mut q, "sysparm_per_page", args.per_page);
    param_number(&mut q, "sysparm_page", args.page);
    if let Some(s) = args.sort_by {
        param(&mut q, "sysparm_sortby", s.as_str());
    }
    if let Some(d) = args.sort_dir {
        param(&mut q, "sysparm_sortdir", d.as_str());
    }
    param_display(&mut q, "sysparm_display_value", args.display_value);
    push_flag(&mut q, "sysparm_exclude_reference_link", args.exclude_reference_link);
    push_flag(&mut q, "sysparm_include_scores", args.include_scores);
    param_option(&mut q, "sysparm_from", &args.from);
    param_option(&mut q, "sysparm_to", &args.to);
    param_number_option(&mut q, "sysparm_step", args.step);
    if let Some(n) = args.limit {
        param(&mut q, "sysparm_limit", whole_decimal(n).as_str());
    }
    push_flag(&mut q, "sysparm_include_available_breakdowns", args.include_available_breakdowns);
    push_flag(&mut q, "sysparm_include_available_aggregates", args.include_available_aggregates);
    push_flag(&mut q, "sysparm_include_realtime", args.include_realtime);
    push_flag(&mut q, "sysparm_include_target_color_scheme", args.include_target_color_scheme);
    push_flag(&mut q, "sysparm_include_forecast_scores", args.include_forecast_scores);
    push_flag(&mut q, "sysparm_include_trendline_scores", args.include_trendline_scores);
    push_flag(&mut q, "sysparm_include_prediction_interval", args.include_prediction_interval);
    get("/api/now/pa/scorecards".to_owned(), q)
}

/// The parameter that names a scorecard.
fn uuid_query(uuid: &str) -> (r: Vec<(String, String)>)
    ensures
        pairs(r@) == seq![("sysparm_uuid"@, uuid@)],
{
    let mut q = no_query();
    param(&mut q, "sysparm_uuid", uuid);
    assert(pairs(q@) =~= seq![("sysparm_uuid"@, uuid@)]);
    q
}

/// The request that makes a scorecard a favorite.
pub fn favorite(args: &ScoresFavoriteArgs) -> (r: Request)
    ensures
        r@ == (Call {
            method: Method::Post,
            path: "/api/now/pa/scorecards"@,
            query: seq![("sysparm_uuid"@, args.uuid@)],
            body: Some(Doc::Object(Map::empty())),
        }),
{
    let none: Vec<(String, Json)> = Vec::new();
    with_body(
        Method::Post,
        "/api/now/pa/scorecards".to_owned(),
        uuid_query(args.uuid.as_str()),
        Json::Object(none),
    )
}

/// The request that makes a scorecard no favorite.
pub fn unfavorite(args: &ScoresFavoriteArgs) -> (r: Request)
    ensures
        r@ == (Call {
            method: Method::Delete,
            path: "/api/now/pa/scorecards"@,
            query: seq![("sysparm_uuid"@, args.uuid@)],
            body: None,
        }),
{
    delete("/api/now/pa/scorecards".to_owned(), uuid_query(args.uuid.as_str()))
}

/// What is shown once a scorecard is no favorite: an answer without a body names
/// the operation instead.
pub fn unfavorited(resp: Json, uuid: &str, output: OutputMode) -> (r: Json)
    ensures
        unwrapped(resp@, output) == Doc::Null ==> r@ == Doc::Object(
            Map::empty().insert("ok"@, Doc::Bool(true)).insert("uuid"@, Doc::Str(uuid@)),
        ),
        unwrapped(resp@, output) != Doc::Null ==> r@ == unwrapped(resp@, output),
{
    match unwrap_or_raw(resp, output) {
        Json::Null => {
            let mut m: Vec<(String, Json)> = Vec::new();
            put(&mut m, "ok", Json::Bool(true));
            put(&mut m, "uuid", Json::str(uuid));
            Json::Object(m)
        },
        v => v,
    }
}

/// The names of the parameters are told apart.
proof fn lemma_names_differ()
    ensures
        "sysparm_uuid"@.len() == 12,
        "sysparm_breakdown"@.len() == 17,
        "sysparm_breakdown_relation"@.len() == 26,
        "sysparm_elements_filter"@.len() == 23,
        "sysparm_display"@.len() == 15,
        "sysparm_favorites"@.len() == 17,
        "sysparm_key"@.len() == 11,
        "sysparm_target"@.len() == 14,
        "sysparm_contains"@.len() == 16,
        "sysparm_tags"@.len() == 12,
        "sysparm_per_page"@.len() == 16,
        "sysparm_page"@.len() == 12,
        "sysparm_sortby"@.len() == 14,
        "sysparm_sortdir"@.len() == 15,
        "sysparm_display_value"@.len() == 21,
        "sysparm_exclude_reference_link"@.len() == 30,
        "sysparm_include_scores"@.len() == 22,
        "sysparm_from"@.len() == 12,
        "sysparm_to"@.len() == 10,
        "sysparm_step"@.len() == 12,
        "sysparm_limit"@.len() == 13,
        "sysparm_include_available_breakdowns"@.len() == 36,
        "sysparm_include_available_aggregates"@.len() == 36,
        "sysparm_include_realtime"@.len() == 24,
        "sysparm_include_target_color_scheme"@.len() == 35,
        "sysparm_include_forecast_scores"@.len() == 31,
        "sysparm_include_trendline_scores"@.len() == 32,
        "sysparm_include_prediction_interval"@.len() == 35,
        "sysparm_uuid"@ != "sysparm_tags"@,
        "sysparm_uuid"@ != "sysparm_page"@,
        "sysparm_uuid"@ != "sysparm_from"@,
        "sysparm_uuid"@ != "sysparm_step"@,
        "sysparm_breakdown"@ != "sysparm_favorites"@,
        "sysparm_display"@ != "sysparm_sortdir"@,
        "sysparm_target"@ != "sysparm_sortby"@,
        "sysparm_contains"@ != "sysparm_per_page"@,
        "sysparm_tags"@ != "sysparm_page"@,
        "sysparm_tags"@ != "sysparm_from"@,
        "sysparm_tags"@ != "sysparm_step"@,
        "sysparm_page"@ != "sysparm_from"@,
        "sysparm_page"@ != "sysparm_step"@,
        "sysparm_from"@ != "sysparm_step"@,
        "sysparm_include_available_breakdowns"@ != "sysparm_include_available_aggregates"@,
        "sysparm_include_target_color_scheme"@ != "sysparm_include_prediction_interval"@,
{
    reveal_strlit("sysparm_uuid");
    reveal_strlit("sysparm_breakdown");
    reveal_strlit("sysparm_breakdown_relation");
    reveal_strlit("sysparm_elements_filter");
    reveal_strlit("sysparm_display");
    reveal_strlit("sysparm_favorites");
    reveal_strlit("sysparm_key");
    reveal_strlit("sysparm_target");
    reveal_strlit("sysparm_contains");
    reveal_strlit("sysparm_tags");
    reveal_strlit("sysparm_per_page");
    reveal_strlit("sysparm_page");
    reveal_strlit("sysparm_sortby");
    reveal_strlit("sysparm_sortdir");
    reveal_strlit("sysparm_display_value");
    reveal_strlit("sysparm_exclude_reference_link");
    reveal_strlit("sysparm_include_scores");
    reveal_strlit("sysparm_from");
    reveal_strlit("sysparm_to");
    reveal_strlit("sysparm_step");
    reveal_strlit("sysparm_limit");
    reveal_strlit("sysparm_include_available_breakdowns");
    reveal_strlit("sysparm_include_available_aggregates");
    reveal_strlit("sysparm_include_realtime");
    reveal_strlit("sysparm_include_target_color_scheme");
    reveal_strlit("sysparm_include_forecast_scores");
    reveal_strlit("sysparm_include_trendline_scores");
    reveal_strlit("sysparm_include_prediction_interval");
    assert("sysparm_uuid"@[8] != "sysparm_tags"@[8]);
    assert("sysparm_uuid"@[8] != "sysparm_page"@[8]);
    assert("sysparm_uuid"@[8] != "sysparm_from"@[8]);
    assert("sysparm_uuid"@[8] != "sysparm_step"@[8]);
    assert("sysparm_breakdown"@[8] != "sysparm_favorites"@[8]);
    assert("sysparm_display"@[8] != "sysparm_sortdir"@[8]);
    assert("sysparm_target"@[8] != "sysparm_sortby"@[8]);
    assert("sysparm_contains"@[8] != "sysparm_per_page"@[8]);
    assert("sysparm_tags"@[8] != "sysparm_page"@[8]);
    assert("sysparm_tags"@[8] != "sysparm_from"@[8]);
    assert("sysparm_tags"@[8] != "sysparm_step"@[8]);
    assert("sysparm_page"@[8] != "sysparm_from"@[8]);
    assert("sysparm_page"@[8] != "sysparm_step"@[8]);
    assert("sysparm_from"@[8] != "sysparm_step"@[8]);
    assert("sysparm_include_available_breakdowns"@[26] != "sysparm_include_available_aggregates"@[26]);
    assert("sysparm_include_target_color_scheme"@[16] != "sysparm_include_prediction_interval"@[16]);
}

/// What selects the scorecards, added to parameters.
#[verifier::opaque]
spec fn chosen(a: ScoresListArgs, q: Seq<(Seq<char>, Seq<char>)>) -> Seq<(Seq<char>, Seq<char>)> {
    let q = with_param(q, "sysparm_uuid"@, text_option(a.uuid));
    let q = with_param(q, "sysparm_breakdown"@, text_option(a.breakdown));
    let q = with_param(q, "sysparm_breakdown_relation"@, text_option(a.breakdown_relation));
    let q = with_param(q, "sysparm_elements_filter"@, text_option(a.elements_filter));
    let q = with_param(q, "sysparm_display"@, display_option(a.display));
    let q = with_flag(q, "sysparm_favorites"@, a.favorites);
    let q = with_flag(q, "sysparm_key"@, a.key);
    q
}

proof fn lemma_chosen(a: ScoresListArgs, q: Seq<(Seq<char>, Seq<char>)>, name: Seq<char>)
    ensures
        param_in(chosen(a, q), name) == (if name == "sysparm_key"@ && a.key {
            Some("true"@)
        } else if name == "sysparm_favorites"@ && a.favorites {
            Some("true"@)
        } else if name == "sysparm_display"@ && display_option(a.display) is Some {
            display_option(a.display)
        } else if name == "sysparm_elements_filter"@ && text_option(a.elements_filter) is Some {
            text_option(a.elements_filter)
        } else if name == "sysparm_breakdown_relation"@ && text_option(a.breakdown_relation) is Some {
            text_option(a.breakdown_relation)
        } else if name == "sysparm_breakdown"@ && text_option(a.breakdown) is Some {
            text_option(a.breakdown)
        } else if name == "sysparm_uuid"@ && text_option(a.uuid) is Some {
            text_option(a.uuid)
        } else {
            param_in(q, name)
        }),
{
    reveal(chosen);
    lemma_param_with(q, "sysparm_uuid"@, text_option(a.uuid), name);
    let q = with_param(q, "sysparm_uuid"@, text_option(a.uuid));
    lemma_param_with(q, "sysparm_breakdown"@, text_option(a.breakdown), name);
    let q = with_param(q, "sysparm_breakdown"@, text_option(a.breakdown));
    lemma_param_with(q, "sysparm_breakdown_relation"@, text_option(a.breakdown_relation), name);
    let q = with_param(q, "sysparm_breakdown_relation"@, text_option(a.breakdown_relation));
    lemma_param_with(q, "sysparm_elements_filter"@, text_option(a.elements_filter), name);
    let q = with_param(q, "sysparm_elements_filter"@, text_option(a.elements_filter));
    lemma_param_with(q, "sysparm_display"@, display_option(a.display), name);
    let q = with_param(q, "sysparm_display"@, display_option(a.display));
    lemma_param_flag(q, "sysparm_favorites"@, a.favorites, name);
    let q = with_flag(q, "sysparm_favorites"@, a.favorites);
    lemma_param_flag(q, "sysparm_key"@, a.key, name);
    let q = with_flag(q, "sysparm_key"@, a.key);
}

/// What narrows and pages the list, added to parameters.
#[verifier::opaque]
spec fn paged(a: ScoresListArgs, q: Seq<(Seq<char>, Seq<char>)>) -> Seq<(Seq<char>, Seq<char>)> {
    let q = with_flag(q, "sysparm_target"@, a.target);
    let q = with_param(q, "sysparm_contains"@, text_option(a.contains));
    let q = with_param(q, "sysparm_tags"@, text_option(a.tags));
    let q = q.push(("sysparm_per_page"@, digits(a.per_page as nat)));
    let q = q.push(("sysparm_page"@, digits(a.page as nat)));
    let q = with_param(q, "sysparm_sortby"@, sort_option(a.sort_by));
    let q = with_param(q, "sysparm_sortdir"@, direction_option(a.sort_dir));
    q
}

proof fn lemma_paged(a: ScoresListArgs, q: Seq<(Seq<char>, Seq<char>)>, name: Seq<char>)
    ensures
        param_in(paged(a, q), name) == (if name == "sysparm_sortdir"@ && direction_option(a.sort_dir) is Some {
            direction_option(a.sort_dir)
        } else if name == "sysparm_sortby"@ && sort_option(a.sort_by) is Some {
            sort_option(a.sort_by)
        } else if name == "sysparm_page"@ {
            Some(digits(a.page as nat))
        } else if name == "sysparm_per_page"@ {
            Some(digits(a.per_page as nat))
        } else if name == "sysparm_tags"@ && text_option(a.tags) is Some {
            text_option(a.tags)
        } else if name == "sysparm_contains"@ && text_option(a.contains) is Some {
            text_option(a.contains)
        } else if name == "sysparm_target"@ && a.target {
            Some("true"@)
        } else {
            param_in(q, name)
        }),
{
    reveal(paged);
    lemma_param_flag(q, "sysparm_target"@, a.target, name);
    let q = with_flag(q, "sysparm_target"@, a.target);
    lemma_param_with(q, "sysparm_contains"@, text_option(a.contains), name);
    let q = with_param(q, "sysparm_contains"@, text_option(a.contains));
    lemma_param_with(q, "sysparm_tags"@, text_option(a.tags), name);
    let q = with_param(q, "sysparm_tags"@, text_option(a.tags));
    lemma_param_push(q, ("sysparm_per_page"@, digits(a.per_page as nat)), name);
    let q = q.push(("sysparm_per_page"@, digits(a.per_page as nat)));
    lemma_param_push(q, ("sysparm_page"@, digits(a.page as nat)), name);
    let q = q.push(("sysparm_page"@, digits(a.page as nat)));
    lemma_param_with(q, "sysparm_sortby"@, sort_option(a.sort_by), name);
    let q = with_param(q, "sysparm_sortby"@, sort_option(a.sort_by));
    lemma_param_with(q, "sysparm_sortdir"@, direction_option(a.sort_dir), name);
    let q = with_param(q, "sysparm_sortdir"@, direction_option(a.sort_dir));
}

/// What is told and from when to when, added to parameters.
#[verifier::opaque]
spec fn told(a: ScoresListArgs, q: Seq<(Seq<char>, Seq<char>)>) -> Seq<(Seq<char>, Seq<char>)> {
    let q = with_param(q, "sysparm_display_value"@, display_option(a.display_value));
    let q = with_flag(q, "sysparm_exclude_reference_link"@, a.exclude_reference_link);
    let q = with_flag(q, "sysparm_include_scores"@, a.include_scores);
    let q = with_param(q, "sysparm_from"@, text_option(a.from));
    let q = with_param(q, "sysparm_to"@, text_option(a.to));
    let q = with_param(q, "sysparm_step"@, number_option(a.step));
    let q = with_param(q, "sysparm_limit"@, whole_option(a.limit));
    q
}

proof fn lemma_told(a: ScoresListArgs, q: Seq<(Seq<char>, Seq<char>)>, name: Seq<char>)
    ensures
        param_in(told(a, q), name) == (if name == "sysparm_limit"@ && whole_option(a.limit) is Some {
            whole_option(a.limit)
        } else if name == "sysparm_step"@ && number_option(a.step) is Some {
            number_option(a.step)
        } else if name == "sysparm_to"@ && text_option(a.to) is Some {
            text_option(a.to)
        } else if name == "sysparm_from"@ && text_option(a.from) is Some {
            text_option(a.from)
        } else if name == "sysparm_include_scores"@ && a.include_scores {
            Some("true"@)
        } else if name == "sysparm_exclude_reference_link"@ && a.exclude_reference_link {
            Some("true"@)
        } else if name == "sysparm_display_value"@ && display_option(a.display_value) is Some {
            display_option(a.display_value)
        } else {
            param_in(q, name)
        }),
{
    reveal(told);
    lemma_param_with(q, "sysparm_display_value"@, display_option(a.display_value), name);
    let q = with_param(q, "sysparm_display_value"@, display_option(a.display_value));
    lemma_param_flag(q, "sysparm_exclude_reference_link"@, a.exclude_reference_link, name);
    let q = with_flag(q, "sysparm_exclude_reference_link"@, a.exclude_reference_link);
    lemma_param_flag(q, "sysparm_include_scores"@, a.include_scores, name);
    let q = with_flag(q, "sysparm_include_scores"@, a.include_scores);
    lemma_param_with(q, "sysparm_from"@, text_option(a.from), name);
    let q = with_param(q, "sysparm_from"@, text_option(a.from));
    lemma_param_with(q, "sysparm_to"@, text_option(a.to), name);
    let q = with_param(q, "sysparm_to"@, text_option(a.to));
    lemma_param_with(q, "sysparm_step"@, number_option(a.step), name);
    let q = with_param(q, "sysparm_step"@, number_option(a.step));
    lemma_param_with(q, "sysparm_limit"@, whole_option(a.limit), name);
    let q = with_param(q, "sysparm_limit"@, whole_option(a.limit));
}

/// What is shown beside the scores, added to parameters.
#[verifier::opaque]
spec fn added(a: ScoresListArgs, q: Seq<(Seq<char>, Seq<char>)>) -> Seq<(Seq<char>, Seq<char>)> {
    let q = with_flag(q, "sysparm_include_available_breakdowns"@, a.include_available_breakdowns);
    let q = with_flag(q, "sysparm_include_available_aggregates"@, a.include_available_aggregates);
    let q = with_flag(q, "sysparm_include_realtime"@, a.include_realtime);
    let q = with_flag(q, "sysparm_include_target_color_scheme"@, a.include_target_color_scheme);
    let q = with_flag(q, "sysparm_include_forecast_scores"@, a.include_forecast_scores);
    let q = with_flag(q, "sysparm_include_trendline_scores"@, a.include_trendline_scores);
    let q = with_flag(q, "sysparm_include_prediction_interval"@, a.include_prediction_interval);
    q
}

proof fn lemma_added(a: ScoresListArgs, q: Seq<(Seq<char>, Seq<char>)>, name: Seq<char>)
    ensures
        param_in(added(a, q), name) == (if name == "sysparm_include_prediction_interval"@ && a.include_prediction_interval {
            Some("true"@)
        } else if name == "sysparm_include_trendline_scores"@ && a.include_trendline_scores {
            Some("true"@)
        } else if name == "sysparm_include_forecast_scores"@ && a.include_forecast_scores {
            Some("true"@)
        } else if name == "sysparm_include_target_color_scheme"@ && a.include_target_color_scheme {
            Some("true"@)
        } else if name == "sysparm_include_realtime"@ && a.include_realtime {
            Some("true"@)
        } else if name == "sysparm_include_available_aggregates"@ && a.include_available_aggregates {
            Some("true"@)
        } else if name == "sysparm_include_available_breakdowns"@ && a.include_available_breakdowns {
            Some("true"@)
        } else {
            param_in(q, name)
        }),
{
    reveal(added);
    lemma_param_flag(q, "sysparm_include_available_breakdowns"@, a.include_available_breakdowns, name);
    let q = with_flag(q, "sysparm_include_available_breakdowns"@, a.include_available_breakdowns);
    lemma_param_flag(q, "sysparm_include_available_aggregates"@, a.include_available_aggregates, name);
    let q = with_flag(q, "sysparm_include_available_aggregates"@, a.include_available_aggregates);
    lemma_param_flag(q, "sysparm_include_realtime"@, a.include_realtime, name);
    let q = with_flag(q, "sysparm_include_realtime"@, a.include_realtime);
    lemma_param_flag(q, "sysparm_include_target_color_scheme"@, a.include_target_color_scheme, name);
    let q = with_flag(q, "sysparm_include_target_color_scheme"@, a.include_target_color_scheme);
    lemma_param_flag(q, "sysparm_include_forecast_scores"@, a.include_forecast_scores, name);
    let q = with_flag(q, "sysparm_include_forecast_scores"@, a.include_forecast_scores);
    lemma_param_flag(q, "sysparm_include_trendline_scores"@, a.include_trendline_scores, name);
    let q = with_flag(q, "sysparm_include_trendline_scores"@, a.include_trendline_scores);
    lemma_param_flag(q, "sysparm_include_prediction_interval"@, a.include_prediction_interval, name);
    let q = with_flag(q, "sysparm_include_prediction_interval"@, a.include_prediction_interval);
}

proof fn lemma_parts(a: ScoresListArgs)
    ensures
        a.params() == added(a, told(a, paged(a, chosen(a, Seq::empty())))),
{
    reveal(chosen);
    reveal(paged);
    reveal(told);
    reveal(added);
}

proof fn lemma_named(a: ScoresListArgs, name: Seq<char>)
    ensures
        param_in(a.params(), name) == param_in(
            added(a, told(a, paged(a, chosen(a, Seq::empty())))),
            name,
        ),
        param_in(Seq::<(Seq<char>, Seq<char>)>::empty(), name) is None,
{
    lemma_parts(a);
}

/// What selects scorecards goes into the parameters that are named after it.
pub proof fn the_scorecards_asked_for_are_named(a: ScoresListArgs)
    ensures
        param_in(a.params(), "sysparm_uuid"@) == text_option(a.uuid),
        param_in(a.params(), "sysparm_breakdown"@) == text_option(a.breakdown),
        param_in(a.params(), "sysparm_breakdown_relation"@) == text_option(a.breakdown_relation),
        param_in(a.params(), "sysparm_elements_filter"@) == text_option(a.elements_filter),
        param_in(a.params(), "sysparm_display"@) == display_option(a.display),
        param_in(a.params(), "sysparm_favorites"@) is Some <==> a.favorites,
        param_in(a.params(), "sysparm_key"@) is Some <==> a.key,
        param_in(a.params(), "sysparm_target"@) is Some <==> a.target,
        param_in(a.params(), "sysparm_contains"@) == text_option(a.contains),
        param_in(a.params(), "sysparm_tags"@) == text_option(a.tags),
        param_in(a.params(), "sysparm_per_page"@) == Some(digits(a.per_page as nat)),
        param_in(a.params(), "sysparm_page"@) == Some(digits(a.page as nat)),
        param_in(a.params(), "sysparm_sortby"@) == sort_option(a.sort_by),
        param_in(a.params(), "sysparm_sortdir"@) == direction_option(a.sort_dir),
{
    lemma_names_differ();
    let e = Seq::<(Seq<char>, Seq<char>)>::empty();
    let q1 = chosen(a, e);
    let q2 = paged(a, q1);
    let q3 = told(a, q2);
    assert(param_in(a.params(), "sysparm_uuid"@) == text_option(a.uuid)) by {
        let name = "sysparm_uuid"@;
        lemma_named(a, name);
        lemma_added(a, q3, name);
        lemma_told(a, q2, name);
        lemma_paged(a, q1, name);
        lemma_chosen(a, e, name);
    }
    assert(param_in(a.params(), "sysparm_breakdown"@) == text_option(a.breakdown)) by {
        let name = "sysparm_breakdown"@;
        lemma_named(a, name);
        lemma_added(a, q3, name);
        lemma_told(a, q2, name);
        lemma_paged(a, q1, name);
        lemma_chosen(a, e, name);
    }
    assert(param_in(a.params(), "sysparm_breakdown_relation"@) == text_option(a.breakdown_relation)) by {
        let name = "sysparm_breakdown_relation"@;
        lemma_named(a, name);
        lemma_added(a, q3, name);
        lemma_told(a, q2, name);
        lemma_paged(a, q1, name);
        lemma_chosen(a, e, name);
    }
    assert(param_in(a.params(), "sysparm_elements_filter"@) == text_option(a.elements_filter)) by {
        let name = "sysparm_elements_filter"@;
        lemma_named(a, name);
        lemma_added(a, q3, name);
        lemma_told(a, q2, name);
        lemma_paged(a, q1, name);
        lemma_chosen(a, e, name);
    }
    assert(param_in(a.params(), "sysparm_display"@) == display_option(a.display)) by {
        let name = "sysparm_display"@;
        lemma_named(a, name);
        lemma_added(a, q3, name);
        lemma_told(a, q2, name);
        lemma_paged(a, q1, name);
        lemma_chosen(a, e, name);
    }
    assert(param_in(a.params(), "sysparm_favorites"@) is Some <==> a.favorites) by {
        let name = "sysparm_favorites"@;
        lemma_named(a, name);
        lemma_added(a, q3, name);
        lemma_told(a, q2, name);
        lemma_paged(a, q1, name);
        lemma_chosen(a, e, name);
    }
    assert(param_in(a.params(), "sysparm_key"@) is Some <==> a.key) by {
        let name = "sysparm_key"@;
        lemma_named(a, name);
        lemma_added(a, q3, name);
        lemma_told(a, q2, name);
        lemma_paged(a, q1, name);
        lemma_chosen(a, e, name);
    }
    assert(param_in(a.params(), "sysparm_target"@) is Some <==> a.target) by {
        let name = "sysparm_target"@;
        lemma_named(a, name);
        lemma_added(a, q3, name);
        lemma_told(a, q2, name);
        lemma_paged(a, q1, name);
        lemma_chosen(a, e, name);
    }
    assert(param_in(a.params(), "sysparm_contains"@) == text_option(a.contains)) by {
        let name = "sysparm_contains"@;
        lemma_named(a, name);
        lemma_added(a, q3, name);
        lemma_told(a, q2, name);
        lemma_paged(a, q1, name);
        lemma_chosen(a, e, name);
    }
    assert(param_in(a.params(), "sysparm_tags"@) == text_option(a.tags)) by {
        let name = "sysparm_tags"@;
        lemma_named(a, name);
        lemma_added(a, q3, name);
        lemma_told(a, q2, name);
        lemma_paged(a, q1, name);
        lemma_chosen(a, e, name);
    }
    assert(param_in(a.params(), "sysparm_per_page"@) == Some(digits(a.per_page as nat))) by {
        let name = "sysparm_per_page"@;
        lemma_named(a, name);
        lemma_added(a, q3, name);
        lemma_told(a, q2, name);
        lemma_paged(a, q1, name);
        lemma_chosen(a, e, name);
    }
    assert(param_in(a.params(), "sysparm_page"@) == Some(digits(a.page as nat))) by {
        let name = "sysparm_page"@;
        lemma_named(a, name);
        lemma_added(a, q3, name);
        lemma_told(a, q2, name);
        lemma_paged(a, q1, name);
        lemma_chosen(a, e, name);
    }
    assert(param_in(a.params(), "sysparm_sortby"@) == sort_option(a.sort_by)) by {
        let name = "sysparm_sortby"@;
        lemma_named(a, name);
        lemma_added(a, q3, name);
        lemma_told(a, q2, name);
        lemma_paged(a, q1, name);
        lemma_chosen(a, e, name);
    }
    assert(param_in(a.params(), "sysparm_sortdir"@) == direction_option(a.sort_dir)) by {
        let name = "sysparm_sortdir"@;
        lemma_named(a, name);
        lemma_added(a, q3, name);
        lemma_told(a, q2, name);
        lemma_paged(a, q1, name);
        lemma_chosen(a, e, name);
    }
}

/// What is told of a scorecard goes into the parameters that are named after it.
pub proof fn what_is_told_of_a_scorecard_is_named(a: ScoresListArgs)
    ensures
        param_in(a.params(), "sysparm_display_value"@) == display_option(a.display_value),
        param_in(a.params(), "sysparm_exclude_reference_link"@) is Some <==> a.exclude_reference_link,
        param_in(a.params(), "sysparm_include_scores"@) is Some <==> a.include_scores,
        param_in(a.params(), "sysparm_from"@) == text_option(a.from),
        param_in(a.params(), "sysparm_to"@) == text_option(a.to),
        param_in(a.params(), "sysparm_step"@) == number_option(a.step),
        param_in(a.params(), "sysparm_limit"@) == whole_option(a.limit),
        param_in(a.params(), "sysparm_include_available_breakdowns"@) is Some <==> a.include_available_breakdowns,
        param_in(a.params(), "sysparm_include_available_aggregates"@) is Some <==> a.include_available_aggregates,
        param_in(a.params(), "sysparm_include_realtime"@) is Some <==> a.include_realtime,
        param_in(a.params(), "sysparm_include_target_color_scheme"@) is Some <==> a.include_target_color_scheme,
        param_in(a.params(), "sysparm_include_forecast_scores"@) is Some <==> a.include_forecast_scores,
        param_in(a.params(), "sysparm_include_trendline_scores"@) is Some <==> a.include_trendline_scores,
        param_in(a.params(), "sysparm_include_prediction_interval"@) is Some <==> a.include_prediction_interval,
{
    lemma_names_differ();
    let e = Seq::<(Seq<char>, Seq<char>)>::empty();
    let q1 = chosen(a, e);
    let q2 = paged(a, q1);
    let q3 = told(a, q2);
    assert(param_in(a.params(), "sysparm_display_value"@) == display_option(a.display_value)) by {
        let name = "sysparm_display_value"@;
        lemma_named(a, name);
        lemma_added(a, q3, name);
        lemma_told(a, q2, name);
        lemma_paged(a, q1, name);
        lemma_chosen(a, e, name);
    }
    assert(param_in(a.params(), "sysparm_exclude_reference_link"@) is Some <==> a.exclude_reference_link) by {
        let name = "sysparm_exclude_reference_link"@;
        lemma_named(a, name);
        lemma_added(a, q3, name);
        lemma_told(a, q2, name);
        lemma_paged(a, q1, name);
        lemma_chosen(a, e, name);
    }
    assert(param_in(a.params(), "sysparm_include_scores"@) is Some <==> a.include_scores) by {
        let name = "sysparm_include_scores"@;
        lemma_named(a, name);
        lemma_added(a, q3, name);
        lemma_told(a, q2, name);
        lemma_paged(a, q1, name);
        lemma_chosen(a, e, name);
    }
    assert(param_in(a.params(), "sysparm_from"@) == text_option(a.from)) by {
        let name = "sysparm_from"@;
        lemma_named(a, name);
        lemma_added(a, q3, name);
        lemma_told(a, q2, name);
        lemma_paged(a, q1, name);
        lemma_chosen(a, e, name);
    }
    assert(param_in(a.params(), "sysparm_to"@) == text_option(a.to)) by {
        let name = "sysparm_to"@;
        lemma_named(a, name);
        lemma_added(a, q3, name);
        lemma_told(a, q2, name);
        lemma_paged(a, q1, name);
        lemma_chosen(a, e, name);
    }
    assert(param_in(a.params(), "sysparm_step"@) == number_option(a.step)) by {
        let name = "sysparm_step"@;
        lemma_named(a, name);
        lemma_added(a, q3, name);
        lemma_told(a, q2, name);
        lemma_paged(a, q1, name);
        lemma_chosen(a, e, name);
    }
    assert(param_in(a.params(), "sysparm_limit"@) == whole_option(a.limit)) by {
        let name = "sysparm_limit"@;
        lemma_named(a, name);
        lemma_added(a, q3, name);
        lemma_told(a, q2, name);
        lemma_paged(a, q1, name);
        lemma_chosen(a, e, name);
    }
    assert(param_in(a.params(), "sysparm_include_available_breakdowns"@) is Some <==> a.include_available_breakdowns) by {
        let name = "sysparm_include_available_breakdowns"@;
        lemma_named(a, name);
        lemma_added(a, q3, name);
        lemma_told(a, q2, name);
        lemma_paged(a, q1, name);
        lemma_chosen(a, e, name);
    }
    assert(param_in(a.params(), "sysparm_include_available_aggregates"@) is Some <==> a.include_available_aggregates) by {
        let name = "sysparm_include_available_aggregates"@;
        lemma_named(a, name);
        lemma_added(a, q3, name);
        lemma_told(a, q2, name);
        lemma_paged(a, q1, name);
        lemma_chosen(a, e, name);
    }
    assert(param_in(a.params(), "sysparm_include_realtime"@) is Some <==> a.include_realtime) by {
        let name = "sysparm_include_realtime"@;
        lemma_named(a, name);
        lemma_added(a, q3, name);
        lemma_told(a, q2, name);
        lemma_paged(a, q1, name);
        lemma_chosen(a, e, name);
    }
    assert(param_in(a.params(), "sysparm_include_target_color_scheme"@) is Some <==> a.include_target_color_scheme) by {
        let name = "sysparm_include_target_color_scheme"@;
        lemma_named(a, name);
        lemma_added(a, q3, name);
        lemma_told(a, q2, name);
        lemma_paged(a, q1, name);
        lemma_chosen(a, e, name);
    }
    assert(param_in(a.params(), "sysparm_include_forecast_scores"@) is Some <==> a.include_forecast_scores) by {
        let name = "sysparm_include_forecast_scores"@;
        lemma_named(a, name);
        lemma_added(a, q3, name);
        lemma_told(a, q2, name);
        lemma_paged(a, q1, name);
        lemma_chosen(a, e, name);
    }
    assert(param_in(a.params(), "sysparm_include_trendline_scores"@) is Some <==> a.include_trendline_scores) by {
        let name = "sysparm_include_trendline_scores"@;
        lemma_named(a, name);
        lemma_added(a, q3, name);
        lemma_told(a, q2, name);
        lemma_paged(a, q1, name);
        lemma_chosen(a, e, name);
    }
    assert(param_in(a.params(), "sysparm_include_prediction_interval"@) is Some <==> a.include_prediction_interval) by {
        let name = "sysparm_include_prediction_interval"@;
        lemma_named(a, name);
        lemma_added(a, q3, name);
        lemma_told(a, q2, name);
        lemma_paged(a, q1, name);
        lemma_chosen(a, e, name);
    }
}

/// A list is sorted by the field that was chosen, in the direction that was chosen.
pub proof fn a_field_to_sort_by_is_named(s: SortBy, d: SortDir)
    ensures
        s is Value <==> s.text() == "VALUE"@,
        s is Change <==> s.text() == "CHANGE"@,
        s is ChangePerc <==> s.text() == "CHANGEPERC"@,
        s is Gap <==> s.text() == "GAP"@,
        s is GapPerc <==> s.text() == "GAPPERC"@,
        s is Name <==> s.text() == "NAME"@,
        s is Order <==> s.text() == "ORDER"@,
        s is Default <==> s.text() == "DEFAULT"@,
        s is IndicatorGroup <==> s.text() == "INDICATOR_GROUP"@,
        s is Frequency <==> s.text() == "FREQUENCY"@,
        s is Target <==> s.text() == "TARGET"@,
        s is Date <==> s.text() == "DATE"@,
        s is Direction <==> s.text() == "DIRECTION"@,
        d is Asc <==> d.text() == "ASC"@,
        d is Desc <==> d.text() == "DESC"@,
{
    reveal_strlit("VALUE");
    reveal_strlit("CHANGE");
    reveal_strlit("CHANGEPERC");
    reveal_strlit("GAP");
    reveal_strlit("GAPPERC");
    reveal_strlit("NAME");
    reveal_strlit("ORDER");
    reveal_strlit("DEFAULT");
    reveal_strlit("INDICATOR_GROUP");
    reveal_strlit("FREQUENCY");
    reveal_strlit("TARGET");
    reveal_strlit("DATE");
    reveal_strlit("DIRECTION");
    reveal_strlit("ASC");
    reveal_strlit("DESC");
    assert("VALUE"@.len() == 5 && "CHANGE"@.len() == 6 && "CHANGEPERC"@.len() == 10 && "GAP"@.len() == 3 && "GAPPERC"@.len() == 7 && "NAME"@.len() == 4 && "ORDER"@.len() == 5 && "DEFAULT"@.len() == 7 && "INDICATOR_GROUP"@.len() == 15 && "FREQUENCY"@.len() == 9 && "TARGET"@.len() == 6 && "DATE"@.len() == 4 && "DIRECTION"@.len() == 9 && "ASC"@.len() == 3 && "DESC"@.len() == 4);
    assert("VALUE"@[0] != "ORDER"@[0]);
    assert("CHANGE"@[0] != "TARGET"@[0]);
    assert("GAP"@[0] != "ASC"@[0]);
    assert("GAPPERC"@[0] != "DEFAULT"@[0]);
    assert("NAME"@[0] != "DATE"@[0]);
    assert("NAME"@[0] != "DESC"@[0]);
    assert("FREQUENCY"@[0] != "DIRECTION"@[0]);
    assert("DATE"@[1] != "DESC"@[1]);
}

} // verus!
