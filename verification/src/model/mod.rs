//! The typed result records extraction produces, by media kind.

pub mod audio;
pub mod book;
pub mod common;
pub mod manga;
pub mod video;

pub use audio::AudioDetail;
pub use audio::AudioPlay;
pub use book::BookContent;
pub use book::BookDetail;
pub use common::ChapterItem;
pub use common::EpisodeItem;
pub use common::PlayLine;
pub use common::SearchItem;
pub use common::TrackItem;
pub use manga::MangaContent;
pub use manga::MangaDetail;
pub use video::VideoDetail;
pub use video::VideoPlay;
