// The playback engine of a streaming audio player, and the catalog logic around it.
//
// `engine` decides what happens to the one live sink on each command and tick;
// `acquisition` names the cached assets, builds the downloader's command line and judges
// its outcome; `progress` reads the downloader's diagnostic lines; `state` and `error`
// are the values that observers see. `catalog`, `keywords`, `explore` and `extraction`
// hold the text logic of searching, listening history and the explore page.
pub mod acquisition;
pub mod catalog;
pub mod engine;
pub mod error;
pub mod explore;
pub mod extraction;
pub mod keywords;
pub mod progress;
pub mod state;
pub mod text;
