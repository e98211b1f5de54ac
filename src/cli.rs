//! The options of the two commands, and the checks and choices made on them
//! before any request is sent.

use vstd::prelude::*;

use crate::partition::TimeWindow;

verus! {

/// The command line: one of two commands.
pub struct Cli {
    pub command: Commands,
}

pub enum Commands {
    /// Download one clip.
    Clip(ClipCommandArgs),
    /// Download the clips of a channel.
    Channel(ChannelCommandArgs),
}

/// Options of the command that downloads one clip.
pub struct ClipCommandArgs {
    /// Directory to download the clip to.
    pub output: String,
    /// Print the address of the file instead of downloading it.
    pub link: bool,
    /// Download the clip's metadata alongside it.
    pub metadata: bool,
    /// Path to a file that holds the client id and secret.
    pub credentials: Option<String>,
    /// The clip's address or slug.
    pub clip: String,
}

/// Options of the command that downloads a channel's clips.
pub struct ChannelCommandArgs {
    /// Directory to store the clips in.
    pub output: String,
    /// Path to a file that holds the client id and secret.
    pub credentials: String,
    /// Numeric broadcaster id.
    pub broadcaster_id: Option<u32>,
    /// Broadcaster login.
    pub broadcaster_login: Option<String>,
    /// Start of the time window.
    pub start_timestamp: Option<String>,
    /// End of the time window; needs a start.
    pub end_timestamp: Option<String>,
    /// How many clips are downloaded at once.
    pub chunk_size: Option<usize>,
    /// Print the addresses of the files instead of downloading them.
    pub link: bool,
    /// Download each clip's metadata alongside it.
    pub metadata: bool,
}

/// An option, or a combination of options, that cannot be acted on.
#[derive(Clone, Copy, Debug, PartialEq, Eq, Structural)]
pub enum ArgError {
    /// Neither a broadcaster id nor a login was given.
    MissingBroadcaster,
    /// An end of the time window was given without a start.
    EndWithoutStart,
    /// Downloads were asked for zero at a time.
    ZeroChunkSize,
    /// Metadata was asked for without credentials.
    MissingCredentials,
    /// No clip slug could be read from the clip argument.
    InvalidClipReference,
    /// A time could not be read as a date.
    InvalidDate,
}

/// Whose clips to list: a numeric id, or a login still to be looked up.
#[derive(Debug, PartialEq, Eq)]
pub enum Broadcaster {
    Id(u32),
    Login(String),
}

/// How many clips are downloaded at once where nothing else is asked.
pub const DEFAULT_CHUNK_SIZE: usize = 10;

impl Cli {
    /// Whether the command only prints addresses, in which case only errors are logged.
    pub fn link_only(&self) -> (link: bool)
        ensures
            link == match self.command {
                Commands::Clip(args) => args.link,
                Commands::Channel(args) => args.link,
            },
    {
        match &self.command {
            Commands::Clip(args) => args.link,
            Commands::Channel(args) => args.link,
        }
    }
}

impl ClipCommandArgs {
    /// Fetching metadata needs credentials; printing the address fetches none.
    pub fn check_credentials(&self) -> (r: Result<(), ArgError>)
        ensures
            r is Err <==> (!self.link && self.metadata && self.credentials is None),
            r matches Err(e) ==> e == ArgError::MissingCredentials,
    {
        if !self.link && self.metadata && self.credentials.is_none() {
            Err(ArgError::MissingCredentials)
        } else {
            Ok(())
        }
    }
}

impl ChannelCommandArgs {
    /// The broadcaster to list: the id where one is given, else the login.
    pub fn broadcaster(&self) -> (r: Result<Broadcaster, ArgError>)
        ensures
            match (self.broadcaster_id, self.broadcaster_login) {
                (Some(id), _) => r == Ok::<Broadcaster, ArgError>(Broadcaster::Id(id)),
                (None, Some(login)) => r matches Ok(Broadcaster::Login(l)) && l@ == login@,
                (None, None) => r == Err::<Broadcaster, ArgError>(ArgError::MissingBroadcaster),
            },
    {
        match (self.broadcaster_id, &self.broadcaster_login) {
            (Some(id), _) => Ok(Broadcaster::Id(id)),
            (None, Some(login)) => Ok(Broadcaster::Login(login.clone())),
            (None, None) => Err(ArgError::MissingBroadcaster),
        }
    }

    /// How many clips to download at once: the number asked for, ten by default;
    /// zero is refused.
    pub fn download_chunk_size(&self) -> (r: Result<usize, ArgError>)
        ensures
            match self.chunk_size {
                None => r == Ok::<usize, ArgError>(DEFAULT_CHUNK_SIZE),
                Some(0) => r == Err::<usize, ArgError>(ArgError::ZeroChunkSize),
                Some(n) => r == Ok::<usize, ArgError>(n),
            },
    {
        match self.chunk_size {
            None => Ok(DEFAULT_CHUNK_SIZE),
            Some(0) => Err(ArgError::ZeroChunkSize),
            Some(n) => Ok(n),
        }
    }
}

/// The instant that reading a time gave, if it was given and could be read.
pub open spec fn read_time(reading: Option<Option<i64>>) -> Option<i64> {
    match reading {
        Some(Some(t)) => Some(t),
        _ => None,
    }
}

/// The time window asked for, from what reading each end gave: `None` where the
/// end was not given, `Some(None)` where its text could not be read as a date, and
/// `Some(Some(t))` where it was read as the instant `t`. An end without a start is
/// refused first, then a text that could not be read.
pub fn time_window(start: Option<Option<i64>>, end: Option<Option<i64>>) -> (r: Result<
    TimeWindow,
    ArgError,
>)
    ensures
        r == if start is None && end is Some {
            Err::<TimeWindow, ArgError>(ArgError::EndWithoutStart)
        } else if start == Some(None::<i64>) || end == Some(None::<i64>) {
            Err::<TimeWindow, ArgError>(ArgError::InvalidDate)
        } else {
            Ok::<TimeWindow, ArgError>(TimeWindow { start: read_time(start), end: read_time(end) })
        },
{
    if start.is_none() && end.is_some() {
        return Err(ArgError::EndWithoutStart);
    }
    let start = match start {
        None => None,
        Some(None) => return Err(ArgError::InvalidDate),
        Some(Some(t)) => Some(t),
    };
    let end = match end {
        None => None,
        Some(None) => return Err(ArgError::InvalidDate),
        Some(Some(t)) => Some(t),
    };
    Ok(TimeWindow { start, end })
}

/// The group that `pattern` captures at index `group` in the first match in `text`,
/// if the pattern compiles, matches, and that group takes part in the match.
pub uninterp spec fn regex_capture(pattern: Seq<char>, text: Seq<char>, group: int) -> Option<
    Seq<char>,
>;

/// Relies on regex's `Regex::new`, `Regex::captures`, `Captures::get` and
/// `Match::as_str`: the text of a capture group in the leftmost-first match, which
/// depends on the pattern, the text and the group alone.
#[verifier::external_body]
fn capture_group(pattern: &str, text: &str, group: usize) -> (r: Option<String>)
    ensures
        match r {
            Some(s) => regex_capture(pattern@, text@, group as int) == Some(s@),
            None => regex_capture(pattern@, text@, group as int) is None,
        },
{
    match regex::Regex::new(pattern) {
        Ok(re) => re.captures(text).and_then(|c| c.get(group)).map(|m| m.as_str().to_string()),
        Err(_) => None,
    }
}

/// A clip address on either of the service's hosts, or a bare slug; the slug is
/// the first group.
pub const CLIP_SLUG_PATTERN: &'static str =
    r"(?:https?://(?:www\.)?twitch\.tv/[^/]+/clip/|https?://clips\.twitch\.tv/)?([A-Za-z0-9_-]+)";

/// The slug of a clip given by its address or by the slug itself.
pub fn clip_slug(clip: &str) -> (r: Result<String, ArgError>)
    ensures
        match r {
            Ok(slug) => regex_capture(CLIP_SLUG_PATTERN@, clip@, 1) == Some(slug@),
            Err(e) => e == ArgError::InvalidClipReference && regex_capture(
                CLIP_SLUG_PATTERN@,
                clip@,
                1,
            ) is None,
        },
{
    match capture_group(CLIP_SLUG_PATTERN, clip, 1) {
        Some(slug) => Ok(slug),
        None => Err(ArgError::InvalidClipReference),
    }
}

} // verus!
