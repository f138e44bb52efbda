pub mod alerts;
pub mod api;
pub mod contest_page;
pub mod errors;
pub mod events;
pub mod forms;
pub mod i18n;
pub mod leaderboard;
pub mod lists;
pub mod markdown;
pub mod models;
pub mod navigation;
pub mod session;
pub mod state;
pub mod text;
pub mod time;
pub mod views;
