//! Parameters: the settings of a context, checked when they are made.

use vstd::prelude::*;
use crate::dictionary::Dictionary;
use crate::error::Error;
use crate::error::ErrorKind;

verus! {

/// The lowest compression level.
pub const LEVEL_MIN: i32 = -131072;

/// The highest compression level.
pub const LEVEL_MAX: i32 = 22;

/// The level used where none is asked for.
pub const LEVEL_DEFAULT: i32 = 3;

/// The smallest window, as a power of two.
pub const WINDOW_LOG_MIN: u32 = 10;

/// The largest window, as a power of two.
pub const WINDOW_LOG_MAX: u32 = 31;

/// Whether a level is one the codec offers.
pub open spec fn level_in_range(level: int) -> bool {
    LEVEL_MIN <= level <= LEVEL_MAX
}

/// Whether a window log is zero, which leaves the choice to the codec, or
/// one the codec offers.
pub open spec fn window_log_in_range(window_log: int) -> bool {
    window_log == 0 || WINDOW_LOG_MIN <= window_log <= WINDOW_LOG_MAX
}

/// Whether a set of values can be made into parameters.
pub open spec fn acceptable(level: int, window_log: int, threads: int) -> bool {
    level_in_range(level) && window_log_in_range(window_log) && threads >= 0
}

/// What parameters hold, dictionary content included.
pub struct ParametersView {
    pub level: int,
    pub window_log: int,
    pub checksum: bool,
    pub threads: int,
    pub dictionary: Option<Seq<u8>>,
    pub tolerate_truncation: bool,
    pub fail_fast: bool,
}

/// What the default parameters hold: the default level, the codec's
/// choice of window, no checksum, no threads, no dictionary, truncation
/// an error, and failures of a batch reported item by item.
pub open spec fn default_view() -> ParametersView {
    ParametersView {
        level: LEVEL_DEFAULT as int,
        window_log: 0,
        checksum: false,
        threads: 0,
        dictionary: None,
        tolerate_truncation: false,
        fail_fast: false,
    }
}

/// Settings for compression and decompression. A value of this type has
/// passed the checks: there is no other way to make one.
#[derive(Clone, Copy, Debug)]
pub struct Parameters<'a> {
    level: i32,
    window_log: u32,
    checksum: bool,
    threads: u32,
    dictionary: Option<&'a Dictionary>,
    tolerate_truncation: bool,
    fail_fast: bool,
}

impl<'a> View for Parameters<'a> {
    type V = ParametersView;

    closed spec fn view(&self) -> ParametersView {
        ParametersView {
            level: self.level as int,
            window_log: self.window_log as int,
            checksum: self.checksum,
            threads: self.threads as int,
            dictionary: match self.dictionary {
                Some(d) => Some(d@),
                None => None,
            },
            tolerate_truncation: self.tolerate_truncation,
            fail_fast: self.fail_fast,
        }
    }
}

impl<'a> Parameters<'a> {
    #[verifier::type_invariant]
    spec fn checked(self) -> bool {
        acceptable(self.level as int, self.window_log as int, self.threads as int)
    }

    /// Checks the values and makes parameters of them. Truncated input is
    /// then an error, and a batch reports each item's failure in its place.
    pub fn new(
        level: i32,
        window_log: u32,
        checksum: bool,
        threads: i32,
        dictionary: Option<&'a Dictionary>,
    ) -> (r: Result<Parameters<'a>, Error>)
        ensures
            r is Ok <==> acceptable(level as int, window_log as int, threads as int),
            r matches Ok(p) ==> p@ == (ParametersView {
                level: level as int,
                window_log: window_log as int,
                checksum,
                threads: threads as int,
                dictionary: match dictionary {
                    Some(d) => Some(d@),
                    None => None,
                },
                tolerate_truncation: false,
                fail_fast: false,
            }),
            r matches Err(e) ==> e == (Error { kind: ErrorKind::InvalidParameter, offset: 0 }),
    {
        if level < LEVEL_MIN || level > LEVEL_MAX {
            return Err(Error::new(ErrorKind::InvalidParameter, 0));
        }
        if window_log != 0 && (window_log < WINDOW_LOG_MIN || window_log > WINDOW_LOG_MAX) {
            return Err(Error::new(ErrorKind::InvalidParameter, 0));
        }
        if threads < 0 {
            return Err(Error::new(ErrorKind::InvalidParameter, 0));
        }
        Ok(
            Parameters {
                level,
                window_log,
                checksum,
                threads: threads as u32,
                dictionary,
                tolerate_truncation: false,
                fail_fast: false,
            },
        )
    }

    /// The parameters used where none are given.
    pub fn defaults() -> (p: Parameters<'a>)
        ensures
            p@ == default_view(),
    {
        Parameters {
            level: LEVEL_DEFAULT,
            window_log: 0,
            checksum: false,
            threads: 0,
            dictionary: None,
            tolerate_truncation: false,
            fail_fast: false,
        }
    }

    /// The same parameters, with input that ends inside a frame accepted
    /// (`true`) or reported as an error (`false`).
    pub fn with_truncation_tolerated(self, tolerate: bool) -> (p: Parameters<'a>)
        ensures
            p@ == (ParametersView { tolerate_truncation: tolerate, ..self@ }),
    {
        proof {
            use_type_invariant(&self);
        }
        Parameters { tolerate_truncation: tolerate, ..self }
    }

    /// The same parameters, with a batch that fails as a whole on the
    /// first failing item (`true`) or reports each failure in its place
    /// (`false`).
    pub fn with_fail_fast(self, fail_fast: bool) -> (p: Parameters<'a>)
        ensures
            p@ == (ParametersView { fail_fast, ..self@ }),
    {
        proof {
            use_type_invariant(&self);
        }
        Parameters { fail_fast, ..self }
    }

    pub fn level(&self) -> (level: i32)
        ensures
            level == self@.level,
            level_in_range(level as int),
    {
        proof {
            use_type_invariant(self);
        }
        self.level
    }

    pub fn window_log(&self) -> (window_log: u32)
        ensures
            window_log == self@.window_log,
            window_log_in_range(window_log as int),
    {
        proof {
            use_type_invariant(self);
        }
        self.window_log
    }

    pub fn checksum(&self) -> (checksum: bool)
        ensures
            checksum == self@.checksum,
    {
        self.checksum
    }

    pub fn threads(&self) -> (threads: u32)
        ensures
            threads == self@.threads,
    {
        self.threads
    }

    pub fn dictionary(&self) -> (dictionary: Option<&'a Dictionary>)
        ensures
            match dictionary {
                Some(d) => self@.dictionary == Some(d@),
                None => self@.dictionary is None,
            },
    {
        self.dictionary
    }

    pub fn tolerate_truncation(&self) -> (tolerate: bool)
        ensures
            tolerate == self@.tolerate_truncation,
    {
        self.tolerate_truncation
    }

    pub fn fail_fast(&self) -> (fail_fast: bool)
        ensures
            fail_fast == self@.fail_fast,
    {
        self.fail_fast
    }
}

} // verus!
