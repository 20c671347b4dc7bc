pub mod admin;
pub mod announce;
pub mod chat;
pub mod map_list;
pub mod player;
pub mod playlist;
pub mod preference;
pub mod queue;
pub mod race;
pub mod record;
pub mod schedule;
pub mod server_events;
pub mod server_rank;
pub mod server_ranking;
pub mod widget;
