//! Default settings of a search.
use vstd::prelude::*;

use crate::phrase::DOT_CHAR_MAX;

verus! {

/// The side length of the pattern grid.
pub const GRID_SIZE: u16 = 3;

/// The shortest pattern to try.
pub const PATTERN_LEN_MIN: u16 = 4;

/// The longest pattern to try.
pub const PATTERN_LEN_MAX: u16 = 5;

/// The largest distance allowed between two consecutive dots of a pattern.
pub const PATTERN_DISTANCE_MAX: u16 = 1;

/// Milliseconds to wait after each attempt; the device refuses new attempts
/// for about ten seconds after each one.
pub const ATTEMPT_TIMEOUT: u64 = 10500;

/// The shortest pause between attempts that the device's lockout window
/// allows, in milliseconds.
pub const LOCKOUT_MIN: u64 = 10000;

/// The kind of code that is searched for.
#[derive(PartialEq, Eq, Structural, Clone, Copy, Debug)]
pub enum Code {
    /// A sequence of dots on the grid.
    Pattern,
    /// A four-digit number.
    Pin,
}

/// The settings of one search.
#[derive(Debug)]
pub struct Settings {
    pub code: Code,
    /// The dots that patterns are built from.
    pub dots: Vec<u16>,
    pub grid_size: u16,
    pub len_min: u16,
    pub len_max: u16,
    pub max_distance: u16,
    /// Milliseconds to wait after each attempt.
    pub pause_ms: u64,
}

/// Why settings are refused.
#[derive(PartialEq, Eq, Structural, Clone, Copy, Debug)]
pub enum SettingsError {
    /// The pause is shorter than the device's lockout window.
    PauseTooShort,
    /// The grid has no dots.
    EmptyGrid,
    /// The shortest pattern length exceeds the longest.
    LengthBounds,
    /// Consecutive dots may not be at distance zero only.
    ZeroDistance,
    /// A dot lies outside the grid.
    DotOutsideGrid,
    /// A dot has no passphrase character.
    DotNotEncodable,
    /// A dot is listed twice.
    RepeatedDot,
}

/// The first rule that settings break, in the order checked; patterns'
/// rules hold only for a pattern search.
pub open spec fn settings_error(s: Settings) -> Option<SettingsError> {
    if s.pause_ms < LOCKOUT_MIN {
        Some(SettingsError::PauseTooShort)
    } else if s.code is Pin {
        None
    } else if s.grid_size == 0 {
        Some(SettingsError::EmptyGrid)
    } else if s.len_min > s.len_max {
        Some(SettingsError::LengthBounds)
    } else if s.max_distance == 0 {
        Some(SettingsError::ZeroDistance)
    } else if exists|i: int| 0 <= i < s.dots@.len() && #[trigger] s.dots@[i] >= s.grid_size * s.grid_size {
        Some(SettingsError::DotOutsideGrid)
    } else if exists|i: int| 0 <= i < s.dots@.len() && #[trigger] s.dots@[i] > DOT_CHAR_MAX {
        Some(SettingsError::DotNotEncodable)
    } else if !s.dots@.no_duplicates() {
        Some(SettingsError::RepeatedDot)
    } else {
        None
    }
}

impl Settings {
    /// The rules on the settings' numbers hold for a pattern search.
    pub open spec fn checked_scalars(self) -> bool {
        &&& self.pause_ms >= LOCKOUT_MIN
        &&& self.code is Pattern
        &&& self.grid_size > 0
        &&& self.len_min <= self.len_max
        &&& self.max_distance > 0
    }

    /// Checks the settings once, before any attempt is made.
    pub fn validate(&self) -> (r: Result<(), SettingsError>)
        ensures
            r == (match settings_error(*self) {
                None => Ok(()),
                Some(e) => Err(e),
            }),
    {
        if self.pause_ms < LOCKOUT_MIN {
            return Err(SettingsError::PauseTooShort);
        }
        if let Code::Pin = self.code {
            return Ok(());
        }
        if self.grid_size == 0 {
            return Err(SettingsError::EmptyGrid);
        }
        if self.len_min > self.len_max {
            return Err(SettingsError::LengthBounds);
        }
        if self.max_distance == 0 {
            return Err(SettingsError::ZeroDistance);
        }
        assert((self.grid_size as int) * (self.grid_size as int) <= 0xffff * 0xffff) by (nonlinear_arith)
            requires self.grid_size <= 0xffff;
        let cells: u32 = self.grid_size as u32 * self.grid_size as u32;
        let mut i: usize = 0;
        while i < self.dots.len()
            invariant
                self.checked_scalars(),
                i <= self.dots@.len(),
                cells == self.grid_size * self.grid_size,
                forall|k: int| 0 <= k < i ==> #[trigger] self.dots@[k] < cells,
            decreases self.dots@.len() - i,
        {
            if self.dots[i] as u32 >= cells {
                assert(self.dots@[i as int] >= self.grid_size * self.grid_size);
                return Err(SettingsError::DotOutsideGrid);
            }
            i = i + 1;
        }
        let mut i: usize = 0;
        while i < self.dots.len()
            invariant
                self.checked_scalars(),
                i <= self.dots@.len(),
                forall|k: int| 0 <= k < i ==> #[trigger] self.dots@[k] <= DOT_CHAR_MAX,
                forall|k: int| 0 <= k < self.dots@.len() ==> #[trigger] self.dots@[k] < self.grid_size * self.grid_size,
            decreases self.dots@.len() - i,
        {
            if self.dots[i] > DOT_CHAR_MAX {
                assert(self.dots@[i as int] > DOT_CHAR_MAX);
                return Err(SettingsError::DotNotEncodable);
            }
            i = i + 1;
        }
        let mut i: usize = 0;
        while i < self.dots.len()
            invariant
                self.checked_scalars(),
                i <= self.dots@.len(),
                forall|a: int, b: int| 0 <= a < i && 0 <= b < self.dots@.len() && a != b ==> self.dots@[a] != self.dots@[b],
                forall|k: int| 0 <= k < self.dots@.len() ==> #[trigger] self.dots@[k] <= DOT_CHAR_MAX,
                forall|k: int| 0 <= k < self.dots@.len() ==> #[trigger] self.dots@[k] < self.grid_size * self.grid_size,
            decreases self.dots@.len() - i,
        {
            let mut j: usize = 0;
            while j < self.dots.len()
                invariant
                    self.checked_scalars(),
                    i < self.dots@.len(),
                    j <= self.dots@.len(),
                    forall|k: int| 0 <= k < self.dots@.len() ==> #[trigger] self.dots@[k] <= DOT_CHAR_MAX,
                    forall|k: int| 0 <= k < self.dots@.len() ==> #[trigger] self.dots@[k] < self.grid_size * self.grid_size,
                    forall|b: int| 0 <= b < j && b != i ==> self.dots@[i as int] != self.dots@[b],
                decreases self.dots@.len() - j,
            {
                if j != i && self.dots[i] == self.dots[j] {
                    assert(!self.dots@.no_duplicates());
                    return Err(SettingsError::RepeatedDot);
                }
                j = j + 1;
            }
            i = i + 1;
        }
        Ok(())
    }
}

} // verus!
