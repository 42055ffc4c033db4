//! Logsday: the rules of a site where each user may upload one log on their
//! "Logsday", the chosen day of a seven- or eight-day week.

pub mod text;
pub mod slug;
pub mod clock;
pub mod week;
pub mod filestuff;
pub mod markdown;
pub mod imaging;
pub mod urlencode;
pub mod logdir;
pub mod site;
pub mod newlog;
pub mod email;
pub mod db;
