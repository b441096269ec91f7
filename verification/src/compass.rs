use vstd::prelude::*;

verus! {

/// How far one step in direction `dir` goes along the first axis, in steps.
pub open spec fn x_sign(dir: int) -> int {
    if 1 <= dir <= 3 {
        1
    } else if 5 <= dir <= 7 {
        -1
    } else {
        0
    }
}

/// How far one step in direction `dir` goes along the second axis, in steps.
pub open spec fn y_sign(dir: int) -> int {
    if dir == 7 || dir == 0 || dir == 1 {
        1
    } else if 3 <= dir <= 5 {
        -1
    } else {
        0
    }
}

/// The direction reached from `dir` by `by` eighths of a turn. Past the last
/// direction it is the first, and before the first it is the last.
pub open spec fn turned(dir: int, by: int) -> int {
    if dir + by > 7 {
        0
    } else if dir + by < 0 {
        7
    } else {
        dir + by
    }
}

/// One of eight directions, an eighth of a turn apart, numbered 0 to 7.
#[derive(Clone, Copy, Debug, PartialEq, Eq)]
pub struct Heading {
    dir: i8,
}

impl View for Heading {
    type V = int;

    closed spec fn view(&self) -> int {
        self.dir as int
    }
}

impl Heading {
    #[verifier::type_invariant]
    spec fn in_range(&self) -> bool {
        0 <= self.dir <= 7
    }

    /// Direction 0.
    pub fn new() -> (h: Heading)
        ensures
            h@ == 0,
    {
        Heading { dir: 0 }
    }

    /// The number of the direction, 0 to 7.
    pub fn dir(&self) -> (d: i8)
        ensures
            d == self@,
            0 <= d <= 7,
    {
        proof {
            use_type_invariant(self);
        }
        self.dir
    }

    /// Turns by `by` eighths of a turn.
    pub fn turn(&mut self, by: i8)
        requires
            old(self)@ + by <= i8::MAX,
        ensures
            final(self)@ == turned(old(self)@, by as int),
            0 <= final(self)@ <= 7,
    {
        proof {
            use_type_invariant(&*self);
        }
        let sum: i8 = self.dir + by;
        if sum > 7 {
            self.dir = 0;
        } else if sum < 0 {
            self.dir = 7;
        } else {
            self.dir = sum;
        }
    }

    /// The move along the two axes that `amount` steps in this direction
    /// make; a negative `amount` steps backward.
    pub fn step(&self, amount: i8) -> (by: (i8, i8))
        requires
            x_sign(self@) * amount <= i8::MAX,
            y_sign(self@) * amount <= i8::MAX,
        ensures
            by.0 == x_sign(self@) * amount,
            by.1 == y_sign(self@) * amount,
    {
        proof {
            use_type_invariant(self);
        }
        let mut xdir: i8 = 0;
        let mut ydir: i8 = 0;
        match self.dir {
            0 => {
                ydir = amount;
            },
            1 => {
                xdir = amount;
                ydir = amount;
            },
            2 => {
                xdir = amount;
            },
            3 => {
                xdir = amount;
                ydir = -amount;
            },
            4 => {
                ydir = -amount;
            },
            5 => {
                xdir = -amount;
                ydir = -amount;
            },
            6 => {
                xdir = -amount;
            },
            _ => {
                xdir = -amount;
                ydir = amount;
            },
        }
        (xdir, ydir)
    }
}

} // verus!
