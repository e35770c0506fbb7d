//! The calendar of builds: a month as a grid of days.

use vstd::prelude::*;
use crate::date;
use crate::date::Date;

verus! {

/// What the builds and the user say of days.
pub struct Marks {
    /// The days that there are builds of.
    pub builds: Vec<Date>,
    /// The day of the build that is taken for the installed one.
    pub current: Option<Date>,
    /// The day that the user has chosen.
    pub selected: Option<Date>,
    /// The day on which the calendar is looked at.
    pub today: Date,
}

/// A day of the month that is shown.
#[derive(Debug, Clone, Copy, PartialEq, Eq, Structural)]
pub struct DayCell {
    pub day: u32,
    pub available: bool,
    pub current: bool,
    pub selected: bool,
    pub today: bool,
    /// The day can be chosen: there is a build, and it is not in the future.
    pub sensitive: bool,
}

/// A place in the grid.
#[derive(Debug, Clone, Copy, PartialEq, Eq, Structural)]
pub enum Cell {
    Blank,
    Day(DayCell),
}

/// How many places the grid has: six weeks.
pub const GRID_CELLS: usize = 42;

/// The day that a place of the grid shows, if it is between the first and the
/// last day of the month.
pub open spec fn day_at(displayed: Date, slot: int) -> int {
    slot - date::weekday(displayed) + 1
}

/// What is shown of a day.
pub open spec fn day_cell(m: Marks, d: Date) -> DayCell {
    DayCell {
        day: d.day,
        available: m.builds@.contains(d),
        current: m.current == Some(d),
        selected: m.selected == Some(d),
        today: d == m.today,
        sensitive: m.builds@.contains(d) && date::date_le(d, m.today),
    }
}

/// What a place of the grid shows.
pub open spec fn cell_at(displayed: Date, m: Marks, slot: int) -> Cell {
    let day = day_at(displayed, slot);
    if 1 <= day <= date::days_of_month(displayed) {
        Cell::Day(day_cell(m, Date { year: displayed.year, month: displayed.month, day: day as u32 }))
    } else {
        Cell::Blank
    }
}

fn is_one_of(v: &Vec<Date>, d: &Date) -> (r: bool)
    ensures
        r == v@.contains(*d),
{
    let mut i: usize = 0;
    while i < v.len()
        invariant
            i <= v@.len(),
            forall|j: int| 0 <= j < i ==> v@[j] != *d,
        decreases v@.len() - i,
    {
        if v[i] == *d {
            assert(v@[i as int] == *d);
            return true;
        }
        i += 1;
    }
    false
}

fn same_day(a: &Option<Date>, d: &Date) -> (r: bool)
    ensures
        r == (*a == Some(*d)),
{
    match a {
        Some(x) => *x == *d,
        None => false,
    }
}

fn show_day(m: &Marks, d: Date) -> (r: DayCell)
    ensures
        r == day_cell(*m, d),
{
    let available = is_one_of(&m.builds, &d);
    DayCell {
        day: d.day,
        available,
        current: same_day(&m.current, &d),
        selected: same_day(&m.selected, &d),
        today: d == m.today,
        sensitive: available && date::not_later(&d, &m.today),
    }
}

/// The grid for a month, which `displayed` is the first day of.
pub fn month_grid(displayed: &Date, m: &Marks) -> (r: Vec<Cell>)
    requires
        displayed.wf(),
    ensures
        r@ == Seq::new(42, |i: int| cell_at(*displayed, *m, i)),
{
    let days: u32 = date::days_in_month(displayed);
    let first: u32 = date::weekday_from_monday(displayed);
    let ghost whole = Seq::new(42, |i: int| cell_at(*displayed, *m, i));
    let mut out: Vec<Cell> = Vec::new();
    let mut slot: u32 = 0;
    assert(out@ =~= whole.take(0));
    while slot < 42
        invariant
            slot <= 42,
            displayed.wf(),
            days == date::days_of_month(*displayed),
            first == date::weekday(*displayed),
            whole == Seq::new(42, |i: int| cell_at(*displayed, *m, i)),
            out@ == whole.take(slot as int),
        decreases 42 - slot,
    {
        let cell = if slot >= first && slot - first < days {
            let d = Date { year: displayed.year, month: displayed.month, day: slot - first + 1 };
            Cell::Day(show_day(m, d))
        } else {
            Cell::Blank
        };
        out.push(cell);
        assert(whole.take(slot + 1) =~= whole.take(slot as int).push(whole[slot as int]));
        slot += 1;
    }
    assert(whole.take(42) =~= whole);
    out
}

/// Some day of the grid has a build.
pub open spec fn shows_build(grid: Seq<Cell>) -> bool {
    exists|i: int|
        0 <= i < grid.len() && (#[trigger] grid[i] matches Cell::Day(c) && c.available)
}

/// Whether the hint that the month has no builds is shown.
pub fn is_empty_month(grid: &Vec<Cell>) -> (r: bool)
    ensures
        r == !shows_build(grid@),
{
    let mut i: usize = 0;
    while i < grid.len()
        invariant
            i <= grid@.len(),
            forall|j: int|
                0 <= j < i ==> !(#[trigger] grid@[j] matches Cell::Day(c) && c.available),
        decreases grid@.len() - i,
    {
        match grid[i] {
            Cell::Day(c) => {
                if c.available {
                    assert(grid@[i as int] matches Cell::Day(c) && c.available);
                    return false;
                }
            },
            Cell::Blank => {},
        }
        i += 1;
    }
    true
}

/// There is a month to go on to.
pub open spec fn goes_on(displayed: Date, today: Date) -> bool {
    !date::date_le(date::first_of(today), displayed)
}

/// Whether one can go on to the next month: not past the current one.
pub fn can_go_on(displayed: &Date, today: &Date) -> (r: bool)
    requires
        today.wf(),
    ensures
        r == goes_on(*displayed, *today),
{
    let current = date::first_of_month(today);
    !date::not_later(&current, displayed)
}

/// The month that is shown first.
pub open spec fn shown_first(newest: Option<Date>, today: Date) -> Date {
    date::first_of(
        match newest {
            Some(d) => d,
            None => today,
        },
    )
}

/// The month that is shown first: that of the newest build, else the current
/// one.
pub fn initial_month(newest: Option<Date>, today: &Date) -> (r: Date)
    requires
        today.wf(),
        newest matches Some(d) ==> d.wf(),
    ensures
        r == shown_first(newest, *today),
        r.wf(),
{
    match newest {
        Some(d) => date::first_of_month(&d),
        None => date::first_of_month(today),
    }
}

/// What is chosen after a click.
pub open spec fn clicked(selected: Option<Date>, day: Date) -> Option<Date> {
    if selected == Some(day) {
        None
    } else {
        Some(day)
    }
}

/// What is chosen after a click on `day`: a click on the chosen day takes the
/// choice back.
pub fn click(selected: Option<Date>, day: Date) -> (r: Option<Date>)
    ensures
        r == clicked(selected, day),
{
    if same_day(&selected, &day) {
        None
    } else {
        Some(day)
    }
}

/// Every day of the month has its place in the grid, and shows whether there is
/// a build of it.
pub proof fn law_every_day_is_shown(displayed: Date, m: Marks, d: Date)
    requires
        displayed.wf(),
        displayed.day == 1,
        displayed.year < date::MAX_YEAR,
        d.wf(),
        date::first_of(d) == displayed,
    ensures
        ({
            let slot = date::weekday(displayed) + d.day - 1;
            0 <= slot < 42 && cell_at(displayed, m, slot) == Cell::Day(day_cell(m, d))
        }),
{
}

/// Only a day with a build can be chosen, and none in the future.
pub proof fn law_only_builds_can_be_chosen(displayed: Date, m: Marks, slot: int)
    requires
        displayed.wf(),
    ensures
        cell_at(displayed, m, slot) matches Cell::Day(c) ==> (c.sensitive ==> exists|d: Date|
            m.builds@.contains(d) && date::date_le(d, m.today) && d.day == c.day
                && date::first_of(d) == date::first_of(displayed)),
{
    let day = day_at(displayed, slot);
    let d = Date { year: displayed.year, month: displayed.month, day: day as u32 };
    match cell_at(displayed, m, slot) {
        Cell::Day(c) => {
            if c.sensitive {
                assert(m.builds@.contains(d) && date::date_le(d, m.today) && d.day == c.day);
                assert(date::first_of(d) == date::first_of(displayed));
            }
        },
        Cell::Blank => {},
    }
}

/// A click chooses a day, whatever was chosen before; a second click takes the
/// choice back.
pub proof fn law_clicks(selected: Option<Date>, day: Date)
    ensures
        clicked(None, day) == Some(day),
        selected != Some(day) ==> clicked(selected, day) == Some(day),
        clicked(clicked(None, day), day) is None,
        clicked(selected, day) != selected,
{
}

/// One can go on from every month before the current one, and not from the
/// current one; the month that is shown first is that of the newest build, or the
/// current one where there is none.
pub proof fn law_months_that_are_shown(displayed: Date, today: Date, newest: Date)
    requires
        displayed.day == 1,
        today.wf(),
    ensures
        displayed.year < today.year ==> goes_on(displayed, today),
        displayed.year == today.year ==> (goes_on(displayed, today) <==> displayed.month
            < today.month),
        displayed.year > today.year ==> !goes_on(displayed, today),
        ({
            let m = shown_first(Some(newest), today);
            m.year == newest.year && m.month == newest.month && m.day == 1
        }),
        ({
            let m = shown_first(None, today);
            m.year == today.year && m.month == today.month && m.day == 1
        }),
{
}

/// What the grid shows: each day of the month once, in order, under its day of the
/// week; the marks of each are its own: whether there is a build of it, whether it
/// is the installed one, the chosen one, today, and whether it can be chosen.
pub proof fn law_what_the_grid_shows(displayed: Date, m: Marks, slot: int)
    requires
        displayed.wf(),
        displayed.day == 1,
        displayed.year < date::MAX_YEAR,
        0 <= slot < 42,
    ensures
        match cell_at(displayed, m, slot) {
            Cell::Day(c) => {
                let d = Date { year: displayed.year, month: displayed.month, day: c.day };
                &&& d.wf()
                &&& slot % 7 == date::weekday(d)
                &&& slot == date::weekday(displayed) + c.day - 1
                &&& c.available <==> m.builds@.contains(d)
                &&& c.current <==> m.current == Some(d)
                &&& c.selected <==> m.selected == Some(d)
                &&& c.today <==> d == m.today
                &&& c.sensitive <==> m.builds@.contains(d) && date::date_le(d, m.today)
            },
            Cell::Blank => slot < date::weekday(displayed) || slot >= date::weekday(displayed)
                + date::month_len(displayed.year as int, displayed.month as int),
        },
{
    if let Cell::Day(c) = cell_at(displayed, m, slot) {
        let d = Date { year: displayed.year, month: displayed.month, day: c.day };
        assert(date::day_number(d) - date::day_number(displayed) == c.day - 1);
        let a = date::day_number(displayed) - 1;
        let k = c.day - 1;
        assert((a % 7 + k) % 7 == (a + k) % 7);
    }
}

/// A month counts as empty exactly where none of its days has a build.
pub proof fn law_empty_months(displayed: Date, m: Marks, d: Date)
    requires
        displayed.wf(),
        displayed.day == 1,
        displayed.year < date::MAX_YEAR,
        d.wf(),
        date::first_of(d) == displayed,
        m.builds@.contains(d),
    ensures
        shows_build(Seq::new(42, |i: int| cell_at(displayed, m, i))),
{
    law_every_day_is_shown(displayed, m, d);
    let grid = Seq::new(42, |i: int| cell_at(displayed, m, i));
    let slot = date::weekday(displayed) + d.day - 1;
    assert(grid[slot] matches Cell::Day(c) && c.available);
}

} // verus!
