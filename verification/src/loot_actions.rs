//! Loot crafting: recipe choice, the plan of each upgrade, and the progress reported.
use vstd::prelude::*;

use crate::json::{field, str_field, unwrap_or, Json};
use crate::loot::{
    find_recipe_by_keywords, find_recipe_by_name, recipe_name, recipe_name_of,
    spec_find_recipe_by_keywords, spec_find_recipe_by_name,
};
use crate::text::{
    concat2, concat3, contains, i64_to_decimal, int_to_decimal, owned, seq_contains, str_eq,
    to_uppercase, unicode_uppercase,
};

verus! {

/// One loot to disenchant or upgrade, as the front end sends it.
pub struct DisenchantItem {
    pub loot_id: String,
    pub count: i32,
    pub upgrade_recipe_name: Option<String>,
}

/// Progress of a batch of loot actions, reported after each job.
pub struct ActionProgressEvent {
    pub current: i32,
    pub total: i32,
    pub success: bool,
    pub loot_name: String,
    pub reward_desc: String,
    pub error_msg: Option<String>,
}

/// `j` holds, as a string value at any depth (object keys aside), `s`.
pub open spec fn json_mentions(j: Json, s: Seq<char>) -> bool
    decreases j,
{
    match j {
        Json::Str(x) => x@ == s,
        Json::Array(v) => seq_mentions(v@, s),
        Json::Object(f) => fields_mention(f@, s),
        _ => false,
    }
}

pub open spec fn seq_mentions(v: Seq<Json>, s: Seq<char>) -> bool
    decreases v,
{
    if v.len() == 0 {
        false
    } else {
        seq_mentions(v.drop_last(), s) || json_mentions(v.last(), s)
    }
}

pub open spec fn fields_mention(f: Seq<(String, Json)>, s: Seq<char>) -> bool
    decreases f,
{
    if f.len() == 0 {
        false
    } else {
        fields_mention(f.drop_last(), s) || json_mentions(f.last().1, s)
    }
}

/// Whether `j` holds the string value `s` at any depth.
pub fn mentions(j: &Json, s: &str) -> (r: bool)
    ensures
        r == json_mentions(*j, s@),
    decreases j,
{
    match j {
        Json::Str(x) => str_eq(x.as_str(), s),
        Json::Array(v) => {
            let mut found = false;
            let mut k: usize = 0;
            while k < v.len()
                invariant
                    k <= v.len(),
                    found == seq_mentions(v@.take(k as int), s@),
                    *j == Json::Array(*v),
                decreases v.len() - k,
            {
                assert(v@.take(k + 1).drop_last() =~= v@.take(k as int));
                assert(v@.take(k + 1).last() == v@[k as int]);
                assert(decreases_to!(*j => (*j)->Array_0));
                assert(decreases_to!(*v => v@));
                assert(decreases_to!(v@ => v@[k as int]));
                assert(decreases_to!(*j => v@[k as int]));
                let here = mentions(&v[k], s);
                found = found || here;
                k = k + 1;
            }
            assert(v@.take(v.len() as int) =~= v@);
            found
        },
        Json::Object(f) => {
            let mut found = false;
            let mut k: usize = 0;
            while k < f.len()
                invariant
                    k <= f.len(),
                    found == fields_mention(f@.take(k as int), s@),
                    *j == Json::Object(*f),
                decreases f.len() - k,
            {
                assert(f@.take(k + 1).drop_last() =~= f@.take(k as int));
                assert(f@.take(k + 1).last() == f@[k as int]);
                assert(decreases_to!(*j => (*j)->Object_0));
                assert(decreases_to!(*f => f@));
                assert(decreases_to!(f@ => f@[k as int]));
                assert(decreases_to!(f@[k as int] => f@[k as int].1));
                assert(decreases_to!(*j => f@[k as int].1));
                let here = mentions(&f[k].1, s);
                found = found || here;
                k = k + 1;
            }
            assert(f@.take(f.len() as int) =~= f@);
            found
        },
        _ => false,
    }
}

/// The extra currencies a recipe consumes: blue essence, then orange essence,
/// each listed once when the recipe mentions it.
pub open spec fn spec_extra_ingredients(recipe: Json) -> Seq<Seq<char>> {
    let blue = if json_mentions(recipe, "CURRENCY_champion"@) {
        seq!["CURRENCY_champion"@]
    } else {
        Seq::empty()
    };
    let orange = if json_mentions(recipe, "CURRENCY_cosmetic"@) {
        seq!["CURRENCY_cosmetic"@]
    } else {
        Seq::empty()
    };
    blue + orange
}

/// `Vec<String>` read by characters.
pub open spec fn strings_view(v: Seq<String>) -> Seq<Seq<char>> {
    v.map_values(|s: String| s@)
}

/// The extra currencies a recipe consumes, sorted and without repeats.
pub fn collect_extra_ingredients(recipe: &Json) -> (r: Vec<String>)
    ensures
        strings_view(r@) == spec_extra_ingredients(*recipe),
{
    let mut out: Vec<String> = Vec::new();
    if mentions(recipe, "CURRENCY_champion") {
        out.push(owned("CURRENCY_champion"));
    }
    if mentions(recipe, "CURRENCY_cosmetic") {
        out.push(owned("CURRENCY_cosmetic"));
    }
    assert(strings_view(out@) =~= spec_extra_ingredients(*recipe));
    out
}

/// A loot without `SHARD` or `RENTAL` in its id (upper-cased) is permanent:
/// it is redeemed directly rather than crafted.
pub open spec fn spec_is_permanent_loot(loot_id: Seq<char>) -> bool {
    !seq_contains(unicode_uppercase(loot_id), "SHARD"@) && !seq_contains(
        unicode_uppercase(loot_id),
        "RENTAL"@,
    )
}

/// Whether a loot is redeemed directly.
pub fn is_permanent_loot(loot_id: &str) -> (r: bool)
    ensures
        r == spec_is_permanent_loot(loot_id@),
{
    let upper = to_uppercase(loot_id);
    !contains(upper.as_str(), "SHARD") && !contains(upper.as_str(), "RENTAL")
}

/// How an upgrade craft is repeated: `(calls, repeat parameter)`. Eternals
/// (`STATSTONE`) take one call per item with `repeat=1`; the others one call
/// with `repeat=count`.
pub open spec fn spec_craft_repeat(loot_id: Seq<char>, count: i32) -> (i32, i32) {
    if seq_contains(unicode_uppercase(loot_id), "STATSTONE"@) {
        (count, 1)
    } else {
        (1, count)
    }
}

/// The calls and repeat parameter of an upgrade craft.
pub fn craft_repeat(loot_id: &str, count: i32) -> (r: (i32, i32))
    ensures
        r == spec_craft_repeat(loot_id@, count),
{
    if contains(to_uppercase(loot_id).as_str(), "STATSTONE") {
        (count, 1)
    } else {
        (1, count)
    }
}

/// The ingredients sent with an upgrade craft: the loot, then the extra currencies.
pub fn upgrade_craft_body(loot_id: &str, extra: Vec<String>) -> (r: Vec<String>)
    ensures
        strings_view(r@) == seq![loot_id@] + strings_view(extra@),
{
    let mut body: Vec<String> = Vec::new();
    body.push(owned(loot_id));
    let mut rest = extra;
    let ghost first = body@;
    let ghost tail = rest@;
    body.append(&mut rest);
    assert(body@ == first + tail);
    assert(strings_view(body@) =~= seq![loot_id@] + strings_view(tail));
    body
}

/// The calls of one upgrade job: up to `started` calls, stopping at the first failure.
pub struct RepeatRun {
    pub started: i32,
    pub remaining: i32,
    pub success_count: i32,
    pub last_error: Option<String>,
}

impl RepeatRun {
    /// The calls the run was started for (none when `started` is not positive).
    pub open spec fn total(self) -> int {
        if self.started > 0 {
            self.started as int
        } else {
            0
        }
    }

    /// Successes and calls left make up the total until a failure, which stops the run.
    pub open spec fn consistent(self) -> bool {
        &&& self.success_count >= 0
        &&& self.remaining >= 0
        &&& (self.last_error is None ==> self.success_count + self.remaining == self.total())
        &&& (self.last_error is Some ==> self.success_count + self.remaining < self.total())
    }

    /// Another call is made while calls are left and none failed.
    pub open spec fn spec_wants_call(self) -> bool {
        self.remaining > 0 && self.last_error is None
    }

    /// A run of `times` calls (none when `times` is not positive).
    pub fn new(times: i32) -> (r: RepeatRun)
        ensures
            r.started == times,
            r.remaining == r.total(),
            r.success_count == 0,
            r.last_error is None,
            r.consistent(),
    {
        RepeatRun {
            started: times,
            remaining: if times > 0 {
                times
            } else {
                0
            },
            success_count: 0,
            last_error: None,
        }
    }

    /// Whether to make another call.
    pub fn wants_call(&self) -> (r: bool)
        ensures
            r == self.spec_wants_call(),
    {
        self.remaining > 0 && self.last_error.is_none()
    }

    /// Records a call that succeeded.
    pub fn record_success(&mut self)
        requires
            old(self).spec_wants_call(),
            old(self).consistent(),
        ensures
            final(self).started == old(self).started,
            final(self).remaining == old(self).remaining - 1,
            final(self).success_count == old(self).success_count + 1,
            final(self).last_error == old(self).last_error,
            final(self).consistent(),
    {
        self.remaining = self.remaining - 1;
        self.success_count = self.success_count + 1;
    }

    /// Records a call that failed with `msg`; the run stops.
    pub fn record_failure(&mut self, msg: String)
        requires
            old(self).spec_wants_call(),
            old(self).consistent(),
        ensures
            final(self).started == old(self).started,
            final(self).remaining == old(self).remaining - 1,
            final(self).success_count == old(self).success_count,
            final(self).last_error == Some(msg),
            final(self).consistent(),
            !final(self).spec_wants_call(),
    {
        self.remaining = self.remaining - 1;
        self.last_error = Some(msg);
    }
}

/// A run that stopped without a failure made every call it was started for.
pub proof fn law_run_without_failure_is_complete(run: RepeatRun)
    requires
        run.consistent(),
        !run.spec_wants_call(),
        run.last_error is None,
    ensures
        run.success_count == run.total(),
{
}

/// The error of a refused upgrade call: `HTTP <status>: <body>`, with a hint when
/// the body reports a client error (redeeming and crafting have their own hints).
pub open spec fn spec_upgrade_failure(status: Seq<char>, body: Seq<char>, redeem: bool) -> Seq<char> {
    let hint = if seq_contains(body, "CLIENT_ERROR"@) {
        if redeem {
            " (通常由于未拥有皮肤对应的英雄，或该永久道具已在当前账号拥有。)"@
        } else {
            " (通常由于精粹余额不足，或者该永久道具已在当前账号拥有。)"@
        }
    } else {
        Seq::empty()
    };
    "HTTP "@ + status + ": "@ + body + hint
}

/// The error of a refused upgrade call.
pub fn upgrade_failure_message(status: &str, body: &str, redeem: bool) -> (r: String)
    ensures
        r@ == spec_upgrade_failure(status@, body@, redeem),
{
    let hint = if contains(body, "CLIENT_ERROR") {
        if redeem {
            " (通常由于未拥有皮肤对应的英雄，或该永久道具已在当前账号拥有。)"
        } else {
            " (通常由于精粹余额不足，或者该永久道具已在当前账号拥有。)"
        }
    } else {
        ""
    };
    proof {
        reveal_strlit("");
    }
    let head = concat3("HTTP ", status, ": ");
    let with_body = concat2(head.as_str(), body);
    let r = concat2(with_body.as_str(), hint);
    assert(r@ =~= spec_upgrade_failure(status@, body@, redeem));
    r
}

/// A progress event: a success with its reward text, or a failure with its error.
pub open spec fn event_is(
    e: ActionProgressEvent,
    current: i32,
    total: i32,
    loot_name: Seq<char>,
    outcome: Result<Seq<char>, Seq<char>>,
) -> bool {
    &&& e.current == current
    &&& e.total == total
    &&& e.loot_name@ == loot_name
    &&& match outcome {
        Ok(reward) => e.success && e.reward_desc@ == reward && e.error_msg is None,
        Err(msg) => !e.success && e.reward_desc@ == Seq::<char>::empty() && (e.error_msg matches Some(
            m,
        ) && m@ == msg),
    }
}

/// A progress event for a finished job.
pub fn progress_event(current: i32, total: i32, loot_name: &str, outcome: Result<String, String>) -> (r:
    ActionProgressEvent)
    ensures
        event_is(
            r,
            current,
            total,
            loot_name@,
            match outcome {
                Ok(x) => Ok(x@),
                Err(x) => Err(x@),
            },
        ),
{
    match outcome {
        Ok(reward) => ActionProgressEvent {
            current,
            total,
            success: true,
            loot_name: owned(loot_name),
            reward_desc: reward,
            error_msg: None,
        },
        Err(msg) => ActionProgressEvent {
            current,
            total,
            success: false,
            loot_name: owned(loot_name),
            reward_desc: String::new(),
            error_msg: Some(msg),
        },
    }
}

/// `<prefix><n> 个`.
pub open spec fn count_text(prefix: Seq<char>, n: i32) -> Seq<char> {
    prefix + int_to_decimal(n as int) + " 个"@
}

/// The event of a finished upgrade job: `成功解锁 n 个` (redeemed) or
/// `成功升级 n 个` (crafted) without a failure, else the failure.
pub fn upgrade_event(current: i32, total: i32, loot_id: &str, run: &RepeatRun, redeem: bool) -> (r:
    ActionProgressEvent)
    ensures
        event_is(
            r,
            current,
            total,
            loot_id@,
            match run.last_error {
                None => Ok(
                    count_text(
                        if redeem {
                            "成功解锁 "@
                        } else {
                            "成功升级 "@
                        },
                        run.success_count,
                    ),
                ),
                Some(e) => Err(e@),
            },
        ),
{
    match &run.last_error {
        None => {
            let prefix = if redeem {
                "成功解锁 "
            } else {
                "成功升级 "
            };
            let text = concat3(prefix, i64_to_decimal(run.success_count as i64).as_str(), " 个");
            progress_event(current, total, loot_id, Ok(text))
        },
        Some(e) => progress_event(current, total, loot_id, Err(e.clone())),
    }
}

/// The text std's `Debug` gives for a list of strings (`["a", "b"]`, with
/// each string quoted and escaped).
pub uninterp spec fn debug_string_list(items: Seq<Seq<char>>) -> Seq<char>;

/// Formats a list of strings with `Debug`.
///
/// Trusted: `format!("{:?}", items)` on a `Vec<String>`; the text is named by
/// `debug_string_list`, a function of the strings alone.
#[verifier::external_body]
fn debug_list(items: &Vec<String>) -> (r: String)
    ensures
        r@ == debug_string_list(strings_view(items@)),
{
    format!("{:?}", items)
}

/// The keywords tried, in order, for an upgrade recipe.
pub open spec fn upgrade_keywords() -> Seq<Seq<char>> {
    seq!["permanent"@, "upgrade"@, "open"@, "claim"@, "activate"@, "unlock"@]
}

/// The recipe chosen for an upgrade: the one named by the front end (when a
/// non-empty name was given and a recipe has it), else the first recipe named as
/// the one the upgrade keywords pick.
pub open spec fn chosen_upgrade_recipe(recipes: Seq<Json>, specific: Option<Seq<char>>) -> Option<
    int,
> {
    let by_name = match specific {
        Some(n) => if n.len() > 0 {
            spec_find_recipe_by_name(recipes, n)
        } else {
            None
        },
        None => None,
    };
    match by_name {
        Some(i) => Some(i),
        None => match spec_find_recipe_by_keywords(recipes, upgrade_keywords()) {
            Some(i) => match recipe_name_of(recipes[i]) {
                Some(n) => spec_find_recipe_by_name(recipes, n),
                None => None,
            },
            None => None,
        },
    }
}

/// The names of the recipes that have one, in order.
pub open spec fn recipe_names(recipes: Seq<Json>) -> Seq<Seq<char>>
    decreases recipes.len(),
{
    if recipes.len() == 0 {
        Seq::empty()
    } else {
        let rest = recipe_names(recipes.drop_last());
        match recipe_name_of(recipes.last()) {
            Some(n) => rest.push(n),
            None => rest,
        }
    }
}

/// The recipe of an upgrade and its extra currencies, or why none was found.
/// Icons, emotes and ward skins without a recipe fall back to their category's
/// generic opening recipe.
pub open spec fn spec_select_upgrade_recipe(
    recipes: Seq<Json>,
    loot_id: Seq<char>,
    specific: Option<Seq<char>>,
) -> Result<(Seq<char>, Seq<Seq<char>>), Seq<char>> {
    match chosen_upgrade_recipe(recipes, specific) {
        Some(i) => match recipe_name_of(recipes[i]) {
            Some(n) => if n.len() > 0 {
                Ok((n, spec_extra_ingredients(recipes[i])))
            } else {
                Err("配方缺少 recipeName 字段"@)
            },
            None => Err("配方缺少 recipeName 字段"@),
        },
        None => {
            let up = unicode_uppercase(loot_id);
            if seq_contains(up, "ICON"@) {
                Ok(("SUMMONERICON_open"@, Seq::empty()))
            } else if seq_contains(up, "EMOTE"@) {
                Ok(("EMOTE_open"@, Seq::empty()))
            } else if seq_contains(up, "WARDSKIN"@) {
                Ok(("WARDSKIN_open"@, Seq::empty()))
            } else {
                Err(
                    "未找到解锁/升级配方（已尝试 permanent/upgrade/open/claim/activate/unlock），可用配方: "@
                        + debug_string_list(recipe_names(recipes)),
                )
            }
        },
    }
}

fn recipe_names_exec(recipes: &[Json]) -> (r: Vec<String>)
    ensures
        strings_view(r@) == recipe_names(recipes@),
{
    let mut out: Vec<String> = Vec::new();
    let mut k: usize = 0;
    while k < recipes.len()
        invariant
            k <= recipes.len(),
            strings_view(out@) == recipe_names(recipes@.take(k as int)),
        decreases recipes.len() - k,
    {
        assert(recipes@.take(k + 1).drop_last() =~= recipes@.take(k as int));
        assert(recipes@.take(k + 1).last() == recipes@[k as int]);
        let ghost before = out@;
        match recipes[k].str_at("recipeName") {
            Some(n) => {
                out.push(owned(n));
                assert(strings_view(out@) =~= strings_view(before).push(n@));
            },
            None => {},
        }
        k = k + 1;
    }
    assert(recipes@.take(recipes.len() as int) =~= recipes@);
    out
}

/// Chooses the recipe of an upgrade among the recipes of the loot.
pub fn select_upgrade_recipe(recipes: &[Json], loot_id: &str, specific: Option<&str>) -> (r: Result<
    (String, Vec<String>),
    String,
>)
    ensures
        match r {
            Ok((n, extra)) => spec_select_upgrade_recipe(
                recipes@,
                loot_id@,
                match specific {
                    Some(s) => Some(s@),
                    None => None,
                },
            ) == Ok::<(Seq<char>, Seq<Seq<char>>), Seq<char>>((n@, strings_view(extra@))),
            Err(e) => spec_select_upgrade_recipe(
                recipes@,
                loot_id@,
                match specific {
                    Some(s) => Some(s@),
                    None => None,
                },
            ) == Err::<(Seq<char>, Seq<Seq<char>>), Seq<char>>(e@),
        },
{
    let by_name = match specific {
        Some(n) => if !n.is_empty() {
            find_recipe_by_name(recipes, n)
        } else {
            None
        },
        None => None,
    };
    let kws: Vec<&str> = vec!["permanent", "upgrade", "open", "claim", "activate", "unlock"];
    assert(kws@.map_values(|k: &str| k@) =~= upgrade_keywords());
    let chosen = match by_name {
        Some(i) => Some(i),
        None => match find_recipe_by_keywords(recipes, kws.as_slice()) {
            Some(i) => match recipes[i].str_at("recipeName") {
                Some(n) => find_recipe_by_name(recipes, n),
                None => None,
            },
            None => None,
        },
    };
    match chosen {
        Some(i) => {
            match recipe_name(&recipes[i]) {
                Ok(n) => Ok((owned(n), collect_extra_ingredients(&recipes[i]))),
                Err(e) => Err(e),
            }
        },
        None => {
            let up = to_uppercase(loot_id);
            let none: Vec<String> = Vec::new();
            assert(strings_view(none@) =~= Seq::<Seq<char>>::empty());
            if contains(up.as_str(), "ICON") {
                Ok((owned("SUMMONERICON_open"), none))
            } else if contains(up.as_str(), "EMOTE") {
                Ok((owned("EMOTE_open"), none))
            } else if contains(up.as_str(), "WARDSKIN") {
                Ok((owned("WARDSKIN_open"), none))
            } else {
                let names = recipe_names_exec(recipes);
                Err(
                    concat2(
                        "未找到解锁/升级配方（已尝试 permanent/upgrade/open/claim/activate/unlock），可用配方: ",
                        debug_list(&names).as_str(),
                    ),
                )
            }
        },
    }
}

/// The recipe whose name holds `keyword`, or why there is none.
pub open spec fn spec_recipe_for_keyword(recipes: Seq<Json>, keyword: Seq<char>) -> Result<
    Seq<char>,
    Seq<char>,
> {
    match spec_find_recipe_by_keywords(recipes, seq![keyword]) {
        Some(i) => match recipe_name_of(recipes[i]) {
            Some(n) => Ok(n),
            None => Err("未找到包含关键字 '"@ + keyword + "' 的配方"@),
        },
        None => Err("未找到包含关键字 '"@ + keyword + "' 的配方"@),
    }
}

/// Finds, among a loot's recipes, the one for an action keyword
/// (`disenchant`, `reroll`, `forge`).
pub fn recipe_for_keyword(recipes: &[Json], keyword: &str) -> (r: Result<String, String>)
    ensures
        match r {
            Ok(n) => spec_recipe_for_keyword(recipes@, keyword@) == Ok::<Seq<char>, Seq<char>>(n@),
            Err(e) => spec_recipe_for_keyword(recipes@, keyword@) == Err::<Seq<char>, Seq<char>>(e@),
        },
{
    let kws: Vec<&str> = vec![keyword];
    assert(kws@.map_values(|k: &str| k@) =~= seq![keyword@]);
    match find_recipe_by_keywords(recipes, kws.as_slice()) {
        Some(i) => match recipes[i].str_at("recipeName") {
            Some(n) => Ok(owned(n)),
            None => Err(concat3("未找到包含关键字 '", keyword, "' 的配方")),
        },
        None => Err(concat3("未找到包含关键字 '", keyword, "' 的配方")),
    }
}

/// The number of reroll groups of three, or the refusal of a list that is empty
/// or not a multiple of three.
pub fn reroll_group_count(n: usize) -> (r: Result<usize, String>)
    ensures
        n == 0 || n % 3 != 0 ==> (r matches Err(e) && e@ == "重随必须提供3的倍数个物品"@),
        n > 0 && n % 3 == 0 ==> r == Ok::<usize, String>(n / 3),
{
    if n == 0 || n % 3 != 0 {
        Err(owned("重随必须提供3的倍数个物品"))
    } else {
        Ok(n / 3)
    }
}

/// The recipe keyword of a reroll group: emotes are forged, the rest rerolled.
pub fn reroll_keyword(first_loot_id: &str) -> (r: &'static str)
    ensures
        r@ == (if seq_contains(first_loot_id@, "EMOTE"@) {
            "forge"@
        } else {
            "reroll"@
        }),
{
    if contains(first_loot_id, "EMOTE") {
        "forge"
    } else {
        "reroll"
    }
}

/// The `playerLoot.itemDesc` of an added loot, empty when it has none.
pub open spec fn added_desc(x: Json) -> Seq<char> {
    match field(x, "playerLoot"@) {
        Some(pl) => unwrap_or(str_field(pl, "itemDesc"@), Seq::empty()),
        None => Seq::empty(),
    }
}

/// The non-empty descriptions of the added loots, in order.
pub open spec fn added_descs(added: Seq<Json>) -> Seq<Seq<char>>
    decreases added.len(),
{
    if added.len() == 0 {
        Seq::empty()
    } else {
        let rest = added_descs(added.drop_last());
        let d = added_desc(added.last());
        if d.len() > 0 {
            rest.push(d)
        } else {
            rest
        }
    }
}

/// `parts` joined with `sep`.
pub open spec fn join(parts: Seq<Seq<char>>, sep: Seq<char>) -> Seq<char>
    decreases parts.len(),
{
    if parts.len() == 0 {
        Seq::empty()
    } else if parts.len() == 1 {
        parts[0]
    } else {
        join(parts.drop_last(), sep) + sep + parts.last()
    }
}

/// The reward named after a reroll: the added loots' descriptions joined with
/// `, `, else `未知永久物品`.
pub open spec fn spec_reroll_reward(detail: Option<Json>) -> Seq<char> {
    let descs = match detail {
        Some(d) => match crate::json::array_field(d, "added"@) {
            Some(a) => added_descs(a),
            None => Seq::empty(),
        },
        None => Seq::empty(),
    };
    if descs.len() > 0 {
        join(descs, ", "@)
    } else {
        "未知永久物品"@
    }
}

/// Names the reward of a reroll from the craft reply (`None` when the reply did
/// not parse).
pub fn reroll_reward_name(detail: Option<&Json>) -> (r: String)
    ensures
        r@ == spec_reroll_reward(crate::tft::deref_json(detail)),
{
    let added = match detail {
        Some(d) => d.array_at("added"),
        None => None,
    };
    let mut joined = String::new();
    let mut n: usize = 0;
    match added {
        Some(a) => {
            let mut k: usize = 0;
            while k < a.len()
                invariant
                    k <= a.len(),
                    n == added_descs(a@.take(k as int)).len(),
                    n <= k,
                    joined@ == join(added_descs(a@.take(k as int)), ", "@),
                decreases a.len() - k,
            {
                assert(a@.take(k + 1).drop_last() =~= a@.take(k as int));
                assert(a@.take(k + 1).last() == a@[k as int]);
                let d = match a[k].get("playerLoot") {
                    Some(pl) => match pl.str_at("itemDesc") {
                        Some(s) => s,
                        None => "",
                    },
                    None => "",
                };
                proof {
                    reveal_strlit("");
                }
                let ghost prev = added_descs(a@.take(k as int));
                if !d.is_empty() {
                    assert(prev.push(d@).drop_last() =~= prev);
                    assert(prev.push(d@).last() == d@);
                    if n == 0 {
                        joined = owned(d);
                    } else {
                        joined = concat3(joined.as_str(), ", ", d);
                    }
                    n = n + 1;
                }
                k = k + 1;
            }
            assert(a@.take(a.len() as int) =~= a@);
        },
        None => {},
    }
    if n > 0 {
        joined
    } else {
        owned("未知永久物品")
    }
}

/// `成功分解 n 个`.
pub fn disenchant_reward(count: i32) -> (r: String)
    ensures
        r@ == count_text("成功分解 "@, count),
{
    concat3("成功分解 ", i64_to_decimal(count as i64).as_str(), " 个")
}

/// `HTTP 错误: <status>`.
pub fn http_error_text(status: &str) -> (r: String)
    ensures
        r@ == "HTTP 错误: "@ + status@,
{
    concat2("HTTP 错误: ", status)
}

/// `找不到配方: <why>` (`找不到升级配方: <why>` for an upgrade).
pub fn recipe_missing_text(why: &str, upgrade: bool) -> (r: String)
    ensures
        r@ == (if upgrade {
            "找不到升级配方: "@
        } else {
            "找不到配方: "@
        }) + why@,
{
    if upgrade {
        concat2("找不到升级配方: ", why)
    } else {
        concat2("找不到配方: ", why)
    }
}

} // verus!
