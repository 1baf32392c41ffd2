//! Chat-client logic: message text handling, emotes, badges, combos,
//! provider protocol decisions and the state kept per channel.

pub mod text;
pub mod name_map;
pub mod model;
pub mod color;
pub mod messages;
pub mod combo;
pub mod chat;
pub mod animation;
pub mod ordering;
pub mod emotes;
pub mod channel;
pub mod state;
pub mod selector;
pub mod numbers;
pub mod twitch;
pub mod dgg;
pub mod loading;
pub mod history;
pub mod composer;
pub mod menus;
pub mod youtube;
pub mod json;
pub mod emote_json;
pub mod images;
pub mod auth;
pub mod tabs;
pub mod panel;
pub mod render;
pub mod css;
pub mod reconnect;
pub mod laws;
