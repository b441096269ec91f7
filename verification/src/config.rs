use vstd::prelude::*;
use crate::geometry::Rect;

verus! {

/// Why a set of generator parameters cannot be used.
#[derive(Clone, Copy, Debug, PartialEq, Eq, Structural)]
pub enum ConfigError {
    /// The smallest room size is below one cell.
    RoomSizeNotPositive,
    /// The smallest room size is above the largest.
    MinAboveMax,
    /// The widest room leaves no column to put it at, a free column kept on
    /// either side.
    RoomTooWide,
    /// The highest room leaves no row to put it at, a free row kept on
    /// either side.
    RoomTooHigh,
}

/// The parameters of level generation.
#[derive(Clone, Copy, Debug, PartialEq, Eq, Structural)]
pub struct LevelConfig {
    /// Columns of the grid.
    pub grid_width: i32,
    /// Rows of the grid.
    pub grid_height: i32,
    /// Smallest width and height of a room, walls included.
    pub min_room_size: i32,
    /// Largest width and height of a room, walls included.
    pub max_room_size: i32,
    /// Rooms after which placement stops.
    pub max_rooms: usize,
    /// Candidate rooms after which placement stops.
    pub max_attempts: u32,
}

impl LevelConfig {
    /// The first fault of the parameters, in the order in which `validate`
    /// looks for them, or none where they are usable.
    pub open spec fn fault(&self) -> Option<ConfigError> {
        if self.min_room_size < 1 {
            Some(ConfigError::RoomSizeNotPositive)
        } else if self.min_room_size > self.max_room_size {
            Some(ConfigError::MinAboveMax)
        } else if self.max_room_size > self.grid_width - 3 {
            Some(ConfigError::RoomTooWide)
        } else if self.max_room_size > self.grid_height - 3 {
            Some(ConfigError::RoomTooHigh)
        } else {
            None
        }
    }

    /// Rooms of every size from the smallest to the largest have a place in
    /// the grid.
    pub open spec fn valid(&self) -> bool {
        &&& 1 <= self.min_room_size <= self.max_room_size
        &&& self.max_room_size <= self.grid_width - 3
        &&& self.max_room_size <= self.grid_height - 3
    }

    /// `r` is a room that placement may propose: its width and height lie
    /// between the smallest and the largest size, and its lower corner lies
    /// at column 1 or above and below column `grid_width - width - 1`, and
    /// likewise for its row.
    pub open spec fn admits(&self, r: Rect) -> bool {
        &&& self.min_room_size <= r.width() <= self.max_room_size
        &&& self.min_room_size <= r.height() <= self.max_room_size
        &&& 1 <= r.x1 < self.grid_width - r.width() - 1
        &&& 1 <= r.y1 < self.grid_height - r.height() - 1
    }

    /// Every corner of `r` lies at column 1 to `grid_width - 2` and at row 1
    /// to `grid_height - 2`.
    pub open spec fn keeps_margin(&self, r: Rect) -> bool {
        &&& 1 <= r.x1 <= r.x2 <= self.grid_width - 2
        &&& 1 <= r.y1 <= r.y2 <= self.grid_height - 2
    }

    /// The parameters of the classic level: 64 by 64 cells, rooms of 5 to 12
    /// cells each way, at most 10 of them out of at most 50 candidates.
    pub open spec fn classic() -> LevelConfig {
        LevelConfig {
            grid_width: 64,
            grid_height: 64,
            min_room_size: 5,
            max_room_size: 12,
            max_rooms: 10,
            max_attempts: 50,
        }
    }

    /// Tells whether the parameters are usable, and if not, what is wrong
    /// with them.
    pub fn validate(&self) -> (res: Result<(), ConfigError>)
        ensures
            res.is_ok() <==> self.valid(),
            res matches Err(e) ==> self.fault() == Some(e),
            res.is_ok() ==> self.fault().is_none(),
    {
        if self.min_room_size < 1 {
            Err(ConfigError::RoomSizeNotPositive)
        } else if self.min_room_size > self.max_room_size {
            Err(ConfigError::MinAboveMax)
        } else if self.grid_width < 3 || self.max_room_size > self.grid_width - 3 {
            Err(ConfigError::RoomTooWide)
        } else if self.grid_height < 3 || self.max_room_size > self.grid_height - 3 {
            Err(ConfigError::RoomTooHigh)
        } else {
            Ok(())
        }
    }

    /// Whether `r` is a well-formed room that placement may propose.
    pub fn admits_room(&self, r: &Rect) -> (ok: bool)
        ensures
            ok == (r.wf() && self.admits(*r)),
    {
        if r.x1 < 1 || r.y1 < 1 || r.x2 < r.x1 || r.y2 < r.y1 {
            return false;
        }
        let w: i32 = r.x2 - r.x1 + 1;
        let h: i32 = r.y2 - r.y1 + 1;
        if w < self.min_room_size || w > self.max_room_size {
            return false;
        }
        if h < self.min_room_size || h > self.max_room_size {
            return false;
        }
        r.x2 as i64 + 2 < self.grid_width as i64 && r.y2 as i64 + 2 < self.grid_height as i64
    }
}

impl Default for LevelConfig {
    fn default() -> (c: LevelConfig)
        ensures
            c == LevelConfig::classic(),
    {
        LevelConfig {
            grid_width: 64,
            grid_height: 64,
            min_room_size: 5,
            max_room_size: 12,
            max_rooms: 10,
            max_attempts: 50,
        }
    }
}

/// A room that placement may propose keeps a free cell between itself and
/// every edge of the grid.
pub proof fn lemma_admitted_keeps_margin(config: LevelConfig, r: Rect)
    requires
        config.valid(),
        config.admits(r),
    ensures
        r.wf(),
        config.keeps_margin(r),
{
}

} // verus!
