//! Spectating a game by launching the game client with the observer credentials.
use vstd::prelude::*;

use crate::json::{field, i64_field, str_field, Json};
use crate::text::{concat2, concat3, i64_to_decimal, int_to_decimal, nat_to_decimal, owned, contains, seq_contains, str_eq, trim, trim_ws, u64_to_decimal};

verus! {

/// The summoner to spectate.
pub struct SpectateDirectlyParams {
    pub summoner_name: String,
}

/// The observer credentials of a game in progress.
pub struct SpectatorCredentials {
    pub observer_ip: String,
    pub observer_port: i64,
    pub encryption_key: String,
    pub game_id: i64,
}

/// The summoner name to look up: the name trimmed, refused when empty.
pub fn spectate_target_name(params: &SpectateDirectlyParams) -> (r: Result<String, String>)
    ensures
        match r {
            Ok(n) => n@ == trim_ws(params.summoner_name@) && n@.len() > 0,
            Err(e) => trim_ws(params.summoner_name@).len() == 0 && e@ == "请输入召唤师名称"@,
        },
{
    let name = trim(params.summoner_name.as_str());
    if name.as_str().is_empty() {
        Err(owned("请输入召唤师名称"))
    } else {
        Ok(name)
    }
}

/// The error shown when the spectator service refuses: the player is not in
/// a game on 404, 405, or a body naming `NOT_IN_GAME` or `not found`.
pub open spec fn spec_spectate_refusal(status: u16, body: Seq<char>) -> Seq<char> {
    if status == 404 || status == 405 || seq_contains(body, "NOT_IN_GAME"@) || seq_contains(
        body,
        "not found"@,
    ) {
        "该召唤师当前不在游戏中"@
    } else {
        "获取观战数据失败 (HTTP "@ + nat_to_decimal(status as nat) + ")"@
    }
}

/// The error of a refused spectator request.
pub fn spectate_refusal(status: u16, body: &str) -> (r: String)
    ensures
        r@ == spec_spectate_refusal(status, body@),
{
    if status == 404 || status == 405 || contains(body, "NOT_IN_GAME") || contains(body, "not found") {
        owned("该召唤师当前不在游戏中")
    } else {
        concat3("获取观战数据失败 (HTTP ", u64_to_decimal(status as u64).as_str(), ")")
    }
}

/// The puuid of the summoner record, or why it is missing.
pub fn spectate_puuid(summoner: &Json) -> (r: Result<String, String>)
    ensures
        match r {
            Ok(p) => str_field(*summoner, "puuid"@) == Some(p@),
            Err(e) => str_field(*summoner, "puuid"@) is None && e@ == "召唤师数据中缺少 puuid"@,
        },
{
    match summoner.str_at("puuid") {
        Some(p) => Ok(owned(p)),
        None => Err(owned("召唤师数据中缺少 puuid")),
    }
}

/// The credentials of the spectator reply, or the first one missing.
pub open spec fn spec_spectator_credentials(data: Json) -> Result<
    (Seq<char>, i64, Seq<char>, i64),
    Seq<char>,
> {
    match field(data, "playerCredentials"@) {
        None => Err("该召唤师当前不在游戏中"@),
        Some(c) => match str_field(c, "observerServerIp"@) {
            None => Err("观战凭据缺少 observerServerIp"@),
            Some(ip) => match i64_field(c, "observerServerPort"@) {
                None => Err("观战凭据缺少 observerServerPort"@),
                Some(port) => match str_field(c, "observerEncryptionKey"@) {
                    None => Err("观战凭据缺少 observerEncryptionKey"@),
                    Some(key) => match i64_field(c, "gameId"@) {
                        None => Err("观战凭据缺少 gameId"@),
                        Some(id) => Ok((ip, port, key, id)),
                    },
                },
            },
        },
    }
}

/// Reads the observer credentials of the spectator reply.
pub fn parse_spectator_credentials(data: &Json) -> (r: Result<SpectatorCredentials, String>)
    ensures
        match r {
            Ok(c) => spec_spectator_credentials(*data) == Ok::<(Seq<char>, i64, Seq<char>, i64), Seq<char>>(
                (c.observer_ip@, c.observer_port, c.encryption_key@, c.game_id),
            ),
            Err(e) => spec_spectator_credentials(*data) == Err::<(Seq<char>, i64, Seq<char>, i64), Seq<char>>(
                e@,
            ),
        },
{
    let c = match data.get("playerCredentials") {
        Some(c) => c,
        None => return Err(owned("该召唤师当前不在游戏中")),
    };
    let ip = match c.str_at("observerServerIp") {
        Some(s) => s,
        None => return Err(owned("观战凭据缺少 observerServerIp")),
    };
    let port = match c.i64_at("observerServerPort") {
        Some(p) => p,
        None => return Err(owned("观战凭据缺少 observerServerPort")),
    };
    let key = match c.str_at("observerEncryptionKey") {
        Some(s) => s,
        None => return Err(owned("观战凭据缺少 observerEncryptionKey")),
    };
    let game_id = match c.i64_at("gameId") {
        Some(g) => g,
        None => return Err(owned("观战凭据缺少 gameId")),
    };
    Ok(SpectatorCredentials { observer_ip: owned(ip), observer_port: port, encryption_key: owned(key), game_id })
}

/// The arguments the game client is launched with to spectate.
pub fn spectator_args(c: &SpectatorCredentials, server: &str) -> (r: Vec<String>)
    ensures
        r.len() == 5,
        r@[0]@ == "spectator"@,
        r@[1]@ == c.observer_ip@ + ":"@ + int_to_decimal(c.observer_port as int),
        r@[2]@ == c.encryption_key@,
        r@[3]@ == int_to_decimal(c.game_id as int),
        r@[4]@ == server@,
{
    let mut v: Vec<String> = Vec::new();
    v.push(owned("spectator"));
    v.push(concat3(c.observer_ip.as_str(), ":", i64_to_decimal(c.observer_port).as_str()));
    v.push(c.encryption_key.clone());
    v.push(i64_to_decimal(c.game_id));
    v.push(owned(server));
    v
}

/// The first configured client path that is not the WeGame marker.
pub open spec fn first_client_path(paths: Seq<String>, marker: Seq<char>) -> Option<int>
    decreases paths.len(),
{
    if paths.len() == 0 {
        None
    } else if paths[0]@ != marker {
        Some(0)
    } else {
        match first_client_path(paths.drop_first(), marker) {
            Some(i) => Some(i + 1),
            None => None,
        }
    }
}

/// The client path to launch from, or the refusal when none is configured.
pub fn client_path(paths: &Vec<String>, wegame_marker: &str) -> (r: Result<String, String>)
    ensures
        match first_client_path(paths@, wegame_marker@) {
            Some(i) => r matches Ok(p) && p@ == paths@[i]@,
            None => r matches Err(e) && e@ == "未配置英雄联盟客户端路径，请在设置中配置"@,
        },
{
    let mut k: usize = 0;
    assert(paths@.skip(0) =~= paths@);
    while k < paths.len()
        invariant
            k <= paths.len(),
            first_client_path(paths@, wegame_marker@) == match first_client_path(
                paths@.skip(k as int),
                wegame_marker@,
            ) {
                Some(i) => Some(i + k),
                None => None,
            },
        decreases paths.len() - k,
    {
        assert(paths@.skip(k as int).drop_first() =~= paths@.skip(k + 1));
        assert(paths@.skip(k as int)[0] == paths@[k as int]);
        if !str_eq(paths[k].as_str(), wegame_marker) {
            return Ok(paths[k].clone());
        }
        k = k + 1;
    }
    Err(owned("未配置英雄联盟客户端路径，请在设置中配置"))
}

/// The message of a started spectate.
pub fn spectate_started(name: &str) -> (r: String)
    ensures
        r@ == "观战启动成功（CMD 方式），目标: "@ + name@,
{
    concat2("观战启动成功（CMD 方式），目标: ", name)
}

} // verus!
