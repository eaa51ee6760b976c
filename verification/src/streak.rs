//! The current streak: the run of days with events that reaches today.

use vstd::prelude::*;
use crate::calendar::Date;
use crate::models::Habit;
use crate::statistics::{active_flags, StatisticsCalculator};
use crate::summary::{current_streak, is_active, latest_day, run_ending};

verus! {

/// The latest day on which one of the events falls.
fn latest_date(habits: &[Habit]) -> (r: Date)
    requires
        habits@.len() > 0,
    ensures
        r@ == latest_day(habits@),
{
    let mut latest = habits[0].timestamp.date();
    let mut i: usize = 1;
    proof {
        assert(latest_day(habits@.take(1)) == habits@[0].timestamp.day());
    }
    while i < habits.len()
        invariant
            1 <= i <= habits.len(),
            latest@ == latest_day(habits@.take(i as int)),
        decreases habits.len() - i,
    {
        proof {
            assert(habits@.take(i + 1).drop_last() =~= habits@.take(i as int));
        }
        let date = habits[i].timestamp.date();
        if date.day_number > latest.day_number {
            latest = date;
        }
        i += 1;
    }
    proof {
        assert(habits@.take(i as int) =~= habits@);
    }
    latest
}

/// Counts the days in a row, up to and with `latest`, that have an event.
fn run_up_to(habits: &[Habit], latest: Date) -> (r: usize)
    ensures
        r == run_ending(habits@, latest@, habits@.len()),
{
    let length = habits.len();
    if length == 0 {
        return 0;
    }
    let first: i128 = latest.day_number as i128 - length as i128 + 1;
    let seen = active_flags(habits, first, length);
    let mut run: usize = 0;
    while run < length && seen[length - 1 - run]
        invariant
            run <= length,
            length == habits@.len(),
            first == latest@ - length + 1,
            seen@.len() == length,
            forall|d: int|
                first <= d < first + length ==> (seen@[d - first] <==> #[trigger] is_active(
                    habits@,
                    d,
                )),
            run_ending(habits@, latest@, length as nat) == run + run_ending(
                habits@,
                latest@ - run,
                (length - run) as nat,
            ),
        decreases length - run,
    {
        proof {
            assert(seen@[length - 1 - run] <==> is_active(habits@, latest@ - run));
        }
        run += 1;
    }
    proof {
        if run < length {
            assert(seen@[length - 1 - run] <==> is_active(habits@, latest@ - run));
        }
    }
    run
}

/// Calls `chrono::Utc::now` and reads the UTC day of the instant it gives,
/// as `chrono::Datelike::num_days_from_ce` numbers it. Nothing is claimed of
/// that day: it is whatever the clock says. `Utc::now` panics where the
/// system clock stands before 1970-01-01; that is a state of the machine,
/// which no condition on the arguments can leave out.
#[verifier::external_body]
fn utc_today() -> Date {
    let today = chrono::Utc::now().date_naive();
    Date { day_number: chrono::Datelike::num_days_from_ce(&today) as i64 }
}

impl StatisticsCalculator {
    /// The streak as of the day `today`.
    pub fn current_streak_on(habits: &[Habit], today: Date) -> (r: usize)
        ensures
            r == current_streak(habits@, today@),
    {
        if habits.len() == 0 {
            return 0;
        }
        let latest = latest_date(habits);
        let is_today = latest.day_number == today.day_number;
        let is_yesterday = today.day_number > i64::MIN && latest.day_number == today.day_number
            - 1;
        if !is_today && !is_yesterday {
            return 0;
        }
        run_up_to(habits, latest)
    }

    /// The streak as of the current UTC day. The clock decides which day that
    /// is; `current_streak_on` says what the streak is for each day.
    pub fn get_current_streak(habits: &[Habit]) -> (r: usize)
        ensures
            exists|today: int| r == #[trigger] current_streak(habits@, today),
            habits@.len() == 0 ==> r == 0,
    {
        let today = utc_today();
        Self::current_streak_on(habits, today)
    }
}

} // verus!
