use vstd::prelude::*;

pub mod agent;
pub mod agent_flows;
pub mod augments;
pub mod auto_tag;
pub mod client_commands;
pub mod client_launch;
pub mod clock;
pub mod current_game;
pub mod detail_cache;
pub mod fate;
pub mod game_assets;
pub mod icon_path;
pub mod json;
pub mod kda;
pub mod lcu_auth;
pub mod live_game;
pub mod loot;
pub mod loot_actions;
pub mod loot_inventory;
pub mod match_detail;
pub mod match_display;
pub mod opgg;
pub mod pipeline_stats;
pub mod post_game;
pub mod queue;
pub mod registry;
pub mod releases;
pub mod saved_players;
pub mod sgp_match;
pub mod spectate;
pub mod teammates;
pub mod text;
pub mod tft;
pub mod tft_augments;
pub mod tft_data;
pub mod tft_participant;
pub mod tft_rank;
pub mod tft_history;
pub mod upload_payload;
pub mod upload_flow;
pub mod upload_url;

verus! {

} // verus!
