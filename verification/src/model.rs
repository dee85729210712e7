//! The record that one line of an export file becomes.

use vstd::prelude::*;

use crate::time::{DateTime, Timestamp};

verus! {

/// Mathematical model of an [`FsLibreLine`].
///
/// A numeric field that is zero, and an `id` that is empty, mean "absent".
pub struct Record {
    pub id: Seq<char>,
    pub timestamp: DateTime,
    pub line_type: u32,
    pub gluco_hist: u32,
    pub gluco_scanned: u32,
    pub fast_insulin: u32,
    pub fast_insulin_non_numeric: u32,
    pub fast_insulin_units: u32,
    pub food: u32,
    pub food_non_numeric: u32,
    pub carbohydrate: u32,
    pub slow_insulin: u32,
    pub slow_insulin_non_numeric: u32,
    pub slow_insulin_units: u32,
}

/// `first` unless it is absent (zero), then `second`.
pub open spec fn first_present(first: u32, second: u32) -> u32 {
    if first != 0 {
        first
    } else {
        second
    }
}

impl Record {
    /// The record that nothing has been read into yet: no id, midnight of
    /// 1 January 1970, every number absent.
    pub open spec fn blank() -> Record {
        Record {
            id: Seq::empty(),
            timestamp: DateTime { year: 1970, month: 1, day: 1, hour: 0, minute: 0 },
            line_type: 0,
            gluco_hist: 0,
            gluco_scanned: 0,
            fast_insulin: 0,
            fast_insulin_non_numeric: 0,
            fast_insulin_units: 0,
            food: 0,
            food_non_numeric: 0,
            carbohydrate: 0,
            slow_insulin: 0,
            slow_insulin_non_numeric: 0,
            slow_insulin_units: 0,
        }
    }

    /// The `k`-th number of the record in file order, counted from 0: the
    /// record kind, then the eleven optional fields.
    pub open spec fn number(self, k: int) -> u32 {
        if k == 0 {
            self.line_type
        } else if k == 1 {
            self.gluco_hist
        } else if k == 2 {
            self.gluco_scanned
        } else if k == 3 {
            self.fast_insulin
        } else if k == 4 {
            self.fast_insulin_non_numeric
        } else if k == 5 {
            self.fast_insulin_units
        } else if k == 6 {
            self.food
        } else if k == 7 {
            self.food_non_numeric
        } else if k == 8 {
            self.carbohydrate
        } else if k == 9 {
            self.slow_insulin
        } else if k == 10 {
            self.slow_insulin_non_numeric
        } else {
            self.slow_insulin_units
        }
    }

    /// The glucose reading to plot: the scanned value, else the historic one.
    pub open spec fn glucose(self) -> u32 {
        first_present(self.gluco_scanned, self.gluco_hist)
    }

    /// The fast-insulin dose to show: units, else amount, else marker.
    pub open spec fn fast_insulin_amount(self) -> u32 {
        first_present(
            self.fast_insulin_units,
            first_present(self.fast_insulin, self.fast_insulin_non_numeric),
        )
    }

    /// The slow-insulin dose to show: units, else amount, else marker, else
    /// the carbohydrate count.
    pub open spec fn slow_insulin_amount(self) -> u32 {
        first_present(
            self.slow_insulin_units,
            first_present(
                self.slow_insulin,
                first_present(self.slow_insulin_non_numeric, self.carbohydrate),
            ),
        )
    }

    /// The food amount to show: amount, else marker.
    pub open spec fn food_amount(self) -> u32 {
        first_present(self.food, self.food_non_numeric)
    }
}

/// One time-stamped observation: glucose readings and the insulin and food
/// events entered at the same minute.
#[derive(Clone, Debug, PartialEq, Eq)]
pub struct FsLibreLine {
    pub id: String,
    pub timestamp: Timestamp,
    pub line_type: u32,
    pub gluco_hist: u32,
    pub gluco_scanned: u32,
    pub fast_insulin: u32,
    pub fast_insulin_non_numeric: u32,
    pub fast_insulin_units: u32,
    pub food: u32,
    pub food_non_numeric: u32,
    pub carbohydrate: u32,
    pub slow_insulin: u32,
    pub slow_insulin_non_numeric: u32,
    pub slow_insulin_units: u32,
}

impl View for FsLibreLine {
    type V = Record;

    open spec fn view(&self) -> Record {
        Record {
            id: self.id@,
            timestamp: self.timestamp@,
            line_type: self.line_type,
            gluco_hist: self.gluco_hist,
            gluco_scanned: self.gluco_scanned,
            fast_insulin: self.fast_insulin,
            fast_insulin_non_numeric: self.fast_insulin_non_numeric,
            fast_insulin_units: self.fast_insulin_units,
            food: self.food,
            food_non_numeric: self.food_non_numeric,
            carbohydrate: self.carbohydrate,
            slow_insulin: self.slow_insulin,
            slow_insulin_non_numeric: self.slow_insulin_non_numeric,
            slow_insulin_units: self.slow_insulin_units,
        }
    }
}

impl DeepView for FsLibreLine {
    type V = Record;

    open spec fn deep_view(&self) -> Record {
        self@
    }
}

/// `first` unless it is zero, then `second`.
pub fn pick(first: u32, second: u32) -> (picked: u32)
    ensures
        picked == first_present(first, second),
{
    if first != 0 {
        first
    } else {
        second
    }
}

impl FsLibreLine {
    /// A blank record.
    pub fn new() -> (line: FsLibreLine)
        ensures
            line@ == Record::blank(),
    {
        FsLibreLine {
            id: String::new(),
            timestamp: Timestamp::epoch(),
            line_type: 0,
            gluco_hist: 0,
            gluco_scanned: 0,
            fast_insulin: 0,
            fast_insulin_non_numeric: 0,
            fast_insulin_units: 0,
            food: 0,
            food_non_numeric: 0,
            carbohydrate: 0,
            slow_insulin: 0,
            slow_insulin_non_numeric: 0,
            slow_insulin_units: 0,
        }
    }

    /// A copy of the record, field for field.
    pub fn duplicate(&self) -> (copy: FsLibreLine)
        ensures
            copy@ == self@,
    {
        FsLibreLine {
            id: self.id.clone(),
            timestamp: self.timestamp,
            line_type: self.line_type,
            gluco_hist: self.gluco_hist,
            gluco_scanned: self.gluco_scanned,
            fast_insulin: self.fast_insulin,
            fast_insulin_non_numeric: self.fast_insulin_non_numeric,
            fast_insulin_units: self.fast_insulin_units,
            food: self.food,
            food_non_numeric: self.food_non_numeric,
            carbohydrate: self.carbohydrate,
            slow_insulin: self.slow_insulin,
            slow_insulin_non_numeric: self.slow_insulin_non_numeric,
            slow_insulin_units: self.slow_insulin_units,
        }
    }

    /// The glucose reading to plot: the scanned value, else the historic one.
    pub fn glucose(&self) -> (reading: u32)
        ensures
            reading == self@.glucose(),
    {
        pick(self.gluco_scanned, self.gluco_hist)
    }

    /// The fast-insulin dose to show: units, else amount, else marker.
    pub fn fast_insulin_amount(&self) -> (amount: u32)
        ensures
            amount == self@.fast_insulin_amount(),
    {
        pick(self.fast_insulin_units, pick(self.fast_insulin, self.fast_insulin_non_numeric))
    }

    /// The slow-insulin dose to show: units, else amount, else marker, else
    /// the carbohydrate count. The last fallback shows a carbohydrate entry
    /// in the slow-insulin row of the chart; it is kept apart here so that a
    /// caller can replace it.
    pub fn slow_insulin_amount(&self) -> (amount: u32)
        ensures
            amount == self@.slow_insulin_amount(),
    {
        pick(
            self.slow_insulin_units,
            pick(self.slow_insulin, pick(self.slow_insulin_non_numeric, self.carbohydrate)),
        )
    }

    /// The food amount to show: amount, else marker.
    pub fn food_amount(&self) -> (amount: u32)
        ensures
            amount == self@.food_amount(),
    {
        pick(self.food, self.food_non_numeric)
    }
}

} // verus!
