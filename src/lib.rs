//! Batch retrieval of a channel's clips: paginated listing, time-range
//! partitioning, best-rendition resolution and batched transfers.

pub mod cli;
pub mod download;
pub mod encoding;
pub mod error;
pub mod listing;
pub mod partition;
pub mod resolver;

pub use cli::{
    clip_slug, time_window, ArgError, Broadcaster, ChannelCommandArgs, Cli, ClipCommandArgs, Commands,
};
pub use download::{
    plan_clip_download, BatchReport, BatchRun, DownloadTask, TaskOutcome, Transfer, TransferAction,
    TransferEvent, TransferStage,
};
pub use error::FetchError;
pub use listing::{
    effective_page_size, merge_partitions, ListingFetch, ListingStep, MergedListing, Page,
};
pub use partition::{listing_windows, split_date_range, DateChunkingType, DateRange, TimeWindow};
pub use resolver::{
    best_source_index, best_source_url, format_source_urls, source_url_text, Clip, Data,
    Extensions, PlaybackAccessToken, SourceFile, VideoQuality, VideoSourceResponse,
};
