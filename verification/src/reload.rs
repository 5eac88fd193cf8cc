//! When the configuration of a running access is read again.

use vstd::prelude::*;

verus! {

/// Seconds between two looks at the configuration file.
pub const ACCESS_CONFIG_RELOAD_INTERVAL_SECS: u64 = 2;

/// Milliseconds to wait after a change, so that it is complete.
pub const ACCESS_CONFIG_RELOAD_DEBOUNCE_MILLIS: u64 = 300;

/// What is known of the configuration file: when it was last modified, in nanoseconds
/// since the epoch.
#[derive(Debug, Clone, Copy, PartialEq, Eq, Structural)]
pub struct ConfigWatch {
    pub last_modified: Option<i128>,
}

impl ConfigWatch {
    /// Begins with the time of the configuration that is in use, where it is known.
    pub fn new(last_modified: Option<i128>) -> (watch: Self)
        ensures
            watch.last_modified == last_modified,
    {
        ConfigWatch { last_modified }
    }

    /// Takes note of when the file was modified, or that this could not be found out, and
    /// says whether to read it again.
    pub fn observe(&mut self, modified: Option<i128>) -> (reload: bool)
        ensures
            reload == (modified is Some && modified != old(self).last_modified),
            final(self).last_modified == if modified is Some {
                modified
            } else {
                old(self).last_modified
            },
    {
        match modified {
            None => false,
            Some(time) => {
                let known = match self.last_modified {
                    Some(last) => last == time,
                    None => false,
                };
                if known {
                    return false;
                }
                self.last_modified = Some(time);
                true
            },
        }
    }
}

/// The configuration is read again when the time of the file is known and not the one known
/// before, and then once: the same time seen again does not lead to another reading, and a
/// time that cannot be found out changes nothing.
pub proof fn law_reload_once_per_change(
    watch: &mut ConfigWatch,
    next: &mut ConfigWatch,
    time: i128,
    first: bool,
    second: bool,
    other: &mut ConfigWatch,
    unknown: bool,
    started: ConfigWatch,
    known: Option<i128>,
)
    requires
        call_ensures(ConfigWatch::observe, (watch, Some(time)), first),
        *old(next) == *final(watch),
        call_ensures(ConfigWatch::observe, (next, Some(time)), second),
        call_ensures(ConfigWatch::observe, (other, None), unknown),
        call_ensures(ConfigWatch::new, (known,), started),
    ensures
        first == (old(watch).last_modified != Some(time)),
        final(watch).last_modified == Some(time),
        !second,
        !unknown,
        *final(other) == *old(other),
        started.last_modified == known,
        ACCESS_CONFIG_RELOAD_INTERVAL_SECS == 2,
        ACCESS_CONFIG_RELOAD_DEBOUNCE_MILLIS == 300,
{
}

} // verus!
