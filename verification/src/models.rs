//! The data records of the habit tracker.

use vstd::prelude::*;
use vstd::string::StringExecFns;
use crate::calendar::{days_from_monday, Date, Timestamp};
use crate::summary::total_of;
use crate::tally::{category_at, category_of_slot};
use crate::text::{case_folded, fold_case, str_eq};

verus! {

/// The closed set of habit categories.
#[derive(Debug, Clone, Copy, PartialEq, Eq, Structural, Hash)]
pub enum Category {
    Health,
    Productivity,
    Hygiene,
    Exercise,
    Sleep,
    Other,
}

impl Category {
    /// The lowercase name of the category.
    pub open spec fn name(self) -> Seq<char> {
        match self {
            Category::Health => "health"@,
            Category::Productivity => "productivity"@,
            Category::Hygiene => "hygiene"@,
            Category::Exercise => "exercise"@,
            Category::Sleep => "sleep"@,
            Category::Other => "other"@,
        }
    }

    /// The category that a lowercase name stands for; `Other` for every text
    /// that is not the name of one of the first five.
    pub open spec fn from_name(s: Seq<char>) -> Category {
        if s == "health"@ {
            Category::Health
        } else if s == "productivity"@ {
            Category::Productivity
        } else if s == "hygiene"@ {
            Category::Hygiene
        } else if s == "exercise"@ {
            Category::Exercise
        } else if s == "sleep"@ {
            Category::Sleep
        } else {
            Category::Other
        }
    }

    /// The category that a free text stands for, whatever its case.
    pub open spec fn parse(s: Seq<char>) -> Category {
        Category::from_name(case_folded(s))
    }

    pub fn as_str(&self) -> (r: &'static str)
        ensures
            r@ == self.name(),
    {
        match self {
            Category::Health => "health",
            Category::Productivity => "productivity",
            Category::Hygiene => "hygiene",
            Category::Exercise => "exercise",
            Category::Sleep => "sleep",
            Category::Other => "other",
        }
    }

    /// Matches an already lowercased text against the category names.
    pub fn from_lowercase(s: &str) -> (r: Category)
        ensures
            r == Category::from_name(s@),
    {
        if str_eq(s, "health") {
            Category::Health
        } else if str_eq(s, "productivity") {
            Category::Productivity
        } else if str_eq(s, "hygiene") {
            Category::Hygiene
        } else if str_eq(s, "exercise") {
            Category::Exercise
        } else if str_eq(s, "sleep") {
            Category::Sleep
        } else {
            Category::Other
        }
    }

    pub fn from_str(s: &str) -> (r: Category)
        ensures
            r == Category::parse(s@),
    {
        let folded = fold_case(s);
        Category::from_lowercase(folded.as_str())
    }
}

/// The names of the categories, in the order of their declaration.
pub fn get_categories() -> (r: Vec<String>)
    ensures
        r@.len() == 6,
        forall|i: int| 0 <= i < 6 ==> (#[trigger] r@[i])@ == category_at(i).name(),
{
    let mut names: Vec<String> = Vec::new();
    let mut i: usize = 0;
    while i < 6
        invariant
            i <= 6,
            names@.len() == i,
            forall|k: int| 0 <= k < i ==> (#[trigger] names@[k])@ == category_at(k).name(),
        decreases 6 - i,
    {
        names.push(String::from_str(category_of_slot(i).as_str()));
        i += 1;
    }
    names
}

/// One recorded occurrence of a habit.
#[derive(Debug, Clone)]
pub struct Habit {
    pub id: String,
    pub name: String,
    pub category: Category,
    pub timestamp: Timestamp,
    pub compliance_level: Option<u8>,
    pub notes: Option<String>,
}

/// A copy of `habit`.
pub fn clone_habit(habit: &Habit) -> (r: Habit)
    ensures
        r == *habit,
{
    let notes = match &habit.notes {
        Some(text) => Some(text.clone()),
        None => None,
    };
    Habit {
        id: habit.id.clone(),
        name: habit.name.clone(),
        category: habit.category,
        timestamp: habit.timestamp,
        compliance_level: habit.compliance_level,
        notes,
    }
}

/// What a caller supplies to record a habit.
#[derive(Debug, Clone)]
pub struct HabitInput {
    pub name: String,
    pub category: String,
    pub timestamp: Option<String>,
    pub compliance_level: Option<u8>,
    pub notes: Option<String>,
}

/// How many events of one category were counted.
#[derive(Debug, Clone)]
pub struct CategoryCount {
    pub category: String,
    pub count: usize,
}

impl View for CategoryCount {
    type V = (Seq<char>, nat);

    open spec fn view(&self) -> (Seq<char>, nat) {
        (self.category@, self.count as nat)
    }
}

/// The mathematical content of a `DailyStats`.
pub struct DailySummary {
    pub date: int,
    pub total: nat,
    pub by_category: Seq<(Seq<char>, nat)>,
    pub compliance_sum: nat,
    pub compliance_count: nat,
}

impl DailySummary {
    /// What holds of the statistics of every day: only counted events carry
    /// a compliance level, no level exceeds 255, and there are six
    /// categories to list.
    pub open spec fn well_formed(self) -> bool {
        &&& self.compliance_count <= self.total
        &&& self.compliance_sum <= 255 * self.compliance_count
        &&& self.by_category.len() <= 6
    }
}

/// The events of one day. The mean compliance of the day is
/// `compliance_sum / compliance_count`, and 0 where no event of the day
/// carries a compliance level.
#[derive(Debug, Clone)]
pub struct DailyStats {
    pub date: Date,
    pub total_habits: usize,
    pub by_category: Vec<CategoryCount>,
    pub compliance_sum: u128,
    pub compliance_count: usize,
}

impl View for DailyStats {
    type V = DailySummary;

    open spec fn view(&self) -> DailySummary {
        DailySummary {
            date: self.date@,
            total: self.total_habits as nat,
            by_category: self.by_category@.map_values(|e: CategoryCount| e@),
            compliance_sum: self.compliance_sum as nat,
            compliance_count: self.compliance_count as nat,
        }
    }
}

/// Direction of a week: its later days against its earlier days.
#[derive(Debug, Clone, Copy, PartialEq, Eq, Structural, Hash)]
pub enum Trend {
    Up,
    Down,
    Stable,
}

/// The mathematical content of a `WeeklyStats`.
pub struct WeeklySummary {
    pub week_start: int,
    pub week_end: int,
    pub days: Seq<DailySummary>,
    pub total: nat,
    pub most_active_day: int,
    pub trend: Trend,
}

impl WeeklySummary {
    /// What holds of the statistics of every week: it has its seven days in
    /// their order, ends six days after it begins, adds up their totals, and
    /// names one of them as the most active.
    pub open spec fn well_formed(self) -> bool {
        &&& self.days.len() == 7
        &&& self.week_end == self.week_start + 6
        &&& forall|i: int|
            0 <= i < 7 ==> (#[trigger] self.days[i]).date == self.week_start + i
                && self.days[i].well_formed()
        &&& self.total == total_of(self.days)
        &&& self.week_start <= self.most_active_day <= self.week_end
    }
}

/// Seven consecutive days and what they add up to.
#[derive(Debug, Clone)]
pub struct WeeklyStats {
    pub week_start: Date,
    pub week_end: Date,
    pub days: Vec<DailyStats>,
    pub total_habits: usize,
    pub most_active_day: Date,
    pub trend: Trend,
}

impl View for WeeklyStats {
    type V = WeeklySummary;

    open spec fn view(&self) -> WeeklySummary {
        WeeklySummary {
            week_start: self.week_start@,
            week_end: self.week_end@,
            days: self.days@.map_values(|d: DailyStats| d@),
            total: self.total_habits as nat,
            most_active_day: self.most_active_day@,
            trend: self.trend,
        }
    }
}

/// The mathematical content of a `MonthlyStats`.
pub struct MonthlySummary {
    pub month: Seq<char>,
    pub year: int,
    pub weeks: Seq<WeeklySummary>,
    pub total: nat,
    pub active_days: nat,
    pub days_in_month: nat,
    pub most_common_category: Seq<char>,
    pub insights: Seq<Seq<char>>,
}

impl MonthlySummary {
    /// What holds of the statistics of every month: four to six weeks that
    /// begin on Mondays and follow one another, 28 to 31 days of which no
    /// more are active than there are events, and one insight, or three
    /// where the month has events.
    pub open spec fn well_formed(self) -> bool {
        &&& 4 <= self.weeks.len() <= 6
        &&& forall|k: int|
            0 <= k < self.weeks.len() ==> (#[trigger] self.weeks[k]).well_formed()
                && days_from_monday(self.weeks[k].week_start) == 0 && self.weeks[k].week_start
                == self.weeks[0].week_start + 7 * k
        &&& 28 <= self.days_in_month <= 31
        &&& self.active_days <= self.days_in_month
        &&& self.active_days <= self.total
        &&& self.insights.len() == if self.total == 0 {
            1nat
        } else {
            3nat
        }
    }
}

/// One calendar month. The consistency of the month, in percent, is
/// `active_days / days_in_month * 100`.
#[derive(Debug, Clone)]
pub struct MonthlyStats {
    pub month: String,
    pub year: i32,
    pub weeks: Vec<WeeklyStats>,
    pub total_habits: usize,
    pub active_days: u32,
    pub days_in_month: u32,
    pub most_common_category: String,
    pub insights: Vec<String>,
}

impl View for MonthlyStats {
    type V = MonthlySummary;

    open spec fn view(&self) -> MonthlySummary {
        MonthlySummary {
            month: self.month@,
            year: self.year as int,
            weeks: self.weeks@.map_values(|w: WeeklyStats| w@),
            total: self.total_habits as nat,
            active_days: self.active_days as nat,
            days_in_month: self.days_in_month as nat,
            most_common_category: self.most_common_category@,
            insights: self.insights@.map_values(|m: String| m@),
        }
    }
}

/// What kind of remark an insight is.
#[derive(Debug, Clone, Copy, PartialEq, Eq, Structural, Hash)]
pub enum InsightType {
    Achievement,
    Pattern,
    Suggestion,
    Warning,
}

/// A generated remark about a month of habits.
#[derive(Debug, Clone)]
pub struct Insight {
    pub message: String,
    pub insight_type: InsightType,
}

impl View for Insight {
    type V = (Seq<char>, InsightType);

    open spec fn view(&self) -> (Seq<char>, InsightType) {
        (self.message@, self.insight_type)
    }
}

} // verus!
