use vstd::prelude::*;

verus! {

/// A request decoded from one client connection, as plain values. The wire
/// format and the transport live outside the library; the playlist and
/// configuration semantics of each variant live on `Factory`.
pub enum Request {
    /// Add the tracks at the given filesystem paths to the playlist.
    Add { paths: Vec<String> },
    /// Remove the tracks at the given indices, which address the playlist
    /// as it stood when the request was composed.
    Remove { ids: Vec<usize> },
    /// Apply key-value configuration properties.
    Config { props: Vec<(String, String)> },
    /// Seek the current track to a timestamp in seconds.
    Seek { t: u64 },
    /// Select a track, by absolute index or relative to the current one.
    Jump { pos: isize, relative: bool },
    /// Continue playback.
    Play,
    /// Stop playback.
    Pause,
}

/// Relies on String::push_str: it appends the given string slice.
pub assume_specification[ String::push_str ](s: &mut String, other: &str)
    ensures
        final(s)@ == old(s)@ + other@,
;

/// The daemon's socket path under the given runtime directory:
/// `<dir>/tape/tape.sock`. Looking the runtime directory up, and any
/// filesystem work on the result, belong to the embedding program.
pub fn socket_path(runtime_dir: &str) -> (p: String)
    ensures
        p@ == runtime_dir@ + "/tape/tape.sock"@,
{
    let mut p = runtime_dir.to_owned();
    p.push_str("/tape/tape.sock");
    p
}

} // verus!
