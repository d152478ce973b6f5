pub mod text;
pub mod cookies;
pub mod ids;
pub mod cookie_map;
pub mod accounts;
pub mod config;
pub mod passport;
pub mod json;
pub mod tiktok;
pub mod tiktok_data;
pub mod tiktok_page;
pub mod cookie_json;
pub mod account_rows;
pub mod guest;
pub mod recorders;
pub mod tiktok_qr;
pub mod platform_qr;
pub mod tiktok_account;
pub mod tiktok_record;
pub mod manager;
pub mod hls;
pub mod clips;
pub mod tiktok_urls;
pub mod tiktok_headers;
pub mod clip_names;
pub mod webview;
pub mod laws;
