//! The decisions behind the Planet A Foods desktop hub: which tab is open, where a link goes,
//! how a browser sign-in comes back, and what each menu accelerator means.
//!
//! Nothing here touches a window, a webview or a socket. Each operation takes plain values and
//! hands back the [`effect::Effect`]s that the shell has to perform, in order.

pub mod auth;
pub mod auth_laws;
pub mod effect;
pub mod host_laws;
pub mod hosts;
pub mod lists;
pub mod loopback;
pub mod loopback_laws;
pub mod menu;
pub mod menu_laws;
pub mod model_laws;
pub mod navigation;
pub mod navigation_laws;
pub mod showing;
pub mod tab_laws;
pub mod tabs;
pub mod text;
pub mod text_laws;
pub mod url_laws;
pub mod weburl;
