//! Short remarks on a month of habits.
//!
//! The consistency of a month is the share of its days on which something
//! was recorded. It is given as the two counts, active days and days in the
//! month, so that every comparison and every printed figure is exact.

use vstd::prelude::*;
use vstd::string::StringExecFns;
use crate::models::{Habit, Insight, InsightType};
use crate::statistics::StatisticsCalculator;
use crate::tally::{largest_group, most_common_group, Grouping};
use crate::text::{decimal_string, decimal_text, digit_str, digit_text};

verus! {

/// Whether the percentage `active / days * 100` lies exactly halfway between
/// two tenths of a percent, as 1 of 16 does (6.25). No tenth is nearest to
/// such a percentage, and nothing here says how it is printed.
pub open spec fn is_halfway(active: nat, days: nat) -> bool {
    (2000 * active) % (2 * days) == days
}

/// The percentage `active / days * 100` in tenths of a percent, rounded to
/// the nearest tenth, for a percentage that does not lie halfway between two
/// tenths.
pub open spec fn percent_tenths(active: nat, days: nat) -> nat {
    (2000 * active + days) / (2 * days)
}

/// A number of tenths written with one decimal place.
pub open spec fn one_decimal_text(tenths: nat) -> Seq<char> {
    decimal_text(tenths / 10) + "."@ + digit_text((tenths % 10) as int)
}

/// The kind of remark that a consistency earns: an achievement from 80 %, an
/// encouragement from 50 %, a suggestion below.
pub open spec fn consistency_tier(active: nat, days: nat) -> InsightType {
    if 100 * active >= 80 * days {
        InsightType::Achievement
    } else if 100 * active >= 50 * days {
        InsightType::Pattern
    } else {
        InsightType::Suggestion
    }
}

/// The remark on the consistency of the month.
pub open spec fn consistency_message(active: nat, days: nat) -> Seq<char> {
    let percent = one_decimal_text(percent_tenths(active, days));
    match consistency_tier(active, days) {
        InsightType::Achievement => "Konsistensi sangat baik! Kamu aktif "@ + percent
            + "% dari hari dalam bulan ini."@,
        InsightType::Pattern => "Konsistensi cukup baik ("@ + percent + "%). Terus tingkatkan!"@,
        _ => "Konsistensi masih rendah ("@ + percent + "%). Coba buat pengingat harian."@,
    }
}

/// The part of the day to which an hour belongs.
pub open spec fn period_of_hour(hour: int) -> Seq<char> {
    if 5 <= hour <= 11 {
        "pagi"@
    } else if 12 <= hour <= 17 {
        "siang/sore"@
    } else if 18 <= hour <= 21 {
        "malam"@
    } else {
        "larut malam"@
    }
}

/// The remark on the hour in which most events fall.
pub open spec fn hour_message(hour: int) -> Seq<char> {
    "Kamu paling aktif di waktu "@ + period_of_hour(hour) + " (sekitar jam "@ + decimal_text(
        hour as nat,
    ) + ")."@
}

/// The name of the weekday `index` days after Monday.
pub open spec fn weekday_name(index: int) -> Seq<char> {
    if index == 0 {
        "Senin"@
    } else if index == 1 {
        "Selasa"@
    } else if index == 2 {
        "Rabu"@
    } else if index == 3 {
        "Kamis"@
    } else if index == 4 {
        "Jumat"@
    } else if index == 5 {
        "Sabtu"@
    } else {
        "Minggu"@
    }
}

/// The remark on the weekday on which most events fall.
pub open spec fn weekday_message(index: int) -> Seq<char> {
    "Hari paling aktif adalah "@ + weekday_name(index) + "."@
}

/// The remarks on a month: one on its consistency and, where the month has
/// events, one on the busiest hour and one on the busiest weekday. Of several
/// hours with the largest count the earliest is named, of several weekdays
/// the first from Monday on.
pub open spec fn insights_of(habits: Seq<Habit>, active: nat, days: nat) -> Seq<
    (Seq<char>, InsightType),
> {
    let on_consistency = seq![(consistency_message(active, days), consistency_tier(active, days))];
    if habits.len() == 0 {
        on_consistency
    } else {
        on_consistency.push(
            (hour_message(largest_group(habits, Grouping::Hour)), InsightType::Pattern),
        ).push((weekday_message(largest_group(habits, Grouping::Weekday)), InsightType::Pattern))
    }
}

/// The message texts of `insights_of`.
pub open spec fn insight_messages(habits: Seq<Habit>, active: nat, days: nat) -> Seq<Seq<char>> {
    insights_of(habits, active, days).map_values(|i: (Seq<char>, InsightType)| i.0)
}

/// Whether the consistency `active_days / days_in_month`, as a percentage,
/// lies exactly halfway between two tenths of a percent.
pub fn lies_halfway(active_days: u32, days_in_month: u32) -> (r: bool)
    requires
        days_in_month > 0,
    ensures
        r == is_halfway(active_days as nat, days_in_month as nat),
{
    (2000 * (active_days as u64)) % (2 * (days_in_month as u64)) == days_in_month as u64
}

/// The consistency `active_days / days_in_month` as a percentage in tenths
/// of a percent, rounded to the nearest tenth.
pub fn consistency_tenths(active_days: u32, days_in_month: u32) -> (r: u64)
    requires
        days_in_month > 0,
        !is_halfway(active_days as nat, days_in_month as nat),
    ensures
        r == percent_tenths(active_days as nat, days_in_month as nat),
{
    (2000 * (active_days as u64) + days_in_month as u64) / (2 * (days_in_month as u64))
}

/// Writes a number of tenths with one decimal place.
pub fn one_decimal_string(tenths: u64) -> (r: String)
    ensures
        r@ == one_decimal_text(tenths as nat),
{
    decimal_string(tenths / 10).concat(".").concat(digit_str(tenths % 10))
}

/// The kind of remark that the consistency `active_days / days_in_month` earns.
pub fn tier_of(active_days: u32, days_in_month: u32) -> (r: InsightType)
    ensures
        r == consistency_tier(active_days as nat, days_in_month as nat),
{
    let scaled: u64 = 100 * (active_days as u64);
    if scaled >= 80 * (days_in_month as u64) {
        InsightType::Achievement
    } else if scaled >= 50 * (days_in_month as u64) {
        InsightType::Pattern
    } else {
        InsightType::Suggestion
    }
}

fn consistency_insight(active_days: u32, days_in_month: u32) -> (r: Insight)
    requires
        days_in_month > 0,
        !is_halfway(active_days as nat, days_in_month as nat),
    ensures
        r@ == (
            consistency_message(active_days as nat, days_in_month as nat),
            consistency_tier(active_days as nat, days_in_month as nat),
        ),
{
    let percent = one_decimal_string(consistency_tenths(active_days, days_in_month));
    let insight_type = tier_of(active_days, days_in_month);
    let message = match insight_type {
        InsightType::Achievement => String::from_str("Konsistensi sangat baik! Kamu aktif ").concat(
            percent.as_str(),
        ).concat("% dari hari dalam bulan ini."),
        InsightType::Pattern => String::from_str("Konsistensi cukup baik (").concat(
            percent.as_str(),
        ).concat("%). Terus tingkatkan!"),
        _ => String::from_str("Konsistensi masih rendah (").concat(percent.as_str()).concat(
            "%). Coba buat pengingat harian.",
        ),
    };
    Insight { message, insight_type }
}

/// The part of the day to which `hour` belongs.
pub fn time_period(hour: usize) -> (r: &'static str)
    ensures
        r@ == period_of_hour(hour as int),
{
    if 5 <= hour && hour <= 11 {
        "pagi"
    } else if 12 <= hour && hour <= 17 {
        "siang/sore"
    } else if 18 <= hour && hour <= 21 {
        "malam"
    } else {
        "larut malam"
    }
}

/// The name of the weekday `index` days after Monday.
pub fn day_name(index: usize) -> (r: &'static str)
    ensures
        r@ == weekday_name(index as int),
{
    if index == 0 {
        "Senin"
    } else if index == 1 {
        "Selasa"
    } else if index == 2 {
        "Rabu"
    } else if index == 3 {
        "Kamis"
    } else if index == 4 {
        "Jumat"
    } else if index == 5 {
        "Sabtu"
    } else {
        "Minggu"
    }
}

impl StatisticsCalculator {
    /// The remarks on the events `habits` of a month of which `active_days` out
    /// of `days_in_month` days had an event. The consistency is printed with
    /// one decimal place, as the nearest tenth of a percent. A consistency
    /// that lies exactly halfway between two tenths has no nearest tenth, and
    /// the function is not to be called with it; `lies_halfway` tells. No
    /// calendar month has such a consistency.
    pub fn generate_insights(
        habits: &[Habit],
        active_days: u32,
        days_in_month: u32,
    ) -> (r: Vec<Insight>)
        requires
            days_in_month > 0,
            !is_halfway(active_days as nat, days_in_month as nat),
        ensures
            r@.map_values(|i: Insight| i@) == insights_of(
                habits@,
                active_days as nat,
                days_in_month as nat,
            ),
    {
        let mut insights: Vec<Insight> = Vec::new();
        let first = consistency_insight(active_days, days_in_month);
        insights.push(first);
        if habits.len() > 0 {
            let hour = most_common_group(habits, Grouping::Hour);
            let hour_text = decimal_string(hour as u64);
            let second = Insight {
                message: String::from_str("Kamu paling aktif di waktu ").concat(
                    time_period(hour),
                ).concat(" (sekitar jam ").concat(hour_text.as_str()).concat(")."),
                insight_type: InsightType::Pattern,
            };
            insights.push(second);
            let weekday = most_common_group(habits, Grouping::Weekday);
            let third = Insight {
                message: String::from_str("Hari paling aktif adalah ").concat(
                    day_name(weekday),
                ).concat("."),
                insight_type: InsightType::Pattern,
            };
            insights.push(third);
            proof {
                assert(insights@.map_values(|i: Insight| i@) =~= seq![first@, second@, third@]);
            }
        } else {
            proof {
                assert(insights@.map_values(|i: Insight| i@) =~= seq![first@]);
            }
        }
        proof {
            assert(insights@.map_values(|i: Insight| i@) =~= insights_of(
                habits@,
                active_days as nat,
                days_in_month as nat,
            ));
        }
        insights
    }
}

} // verus!
