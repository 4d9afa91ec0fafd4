//! Release dates as the library provider writes them, read as instants.

use crate::models::game::{GameDetails, GameId};
use crate::models::steam::{Category, SteamAppDetails};
use crate::text::{
    all_digits, chars_of, clone_optional, digits_value, lemma_digits_value_below, push_chars,
    read_digits, string_from, strip_commas_and_trim, ten_to, trimmed, without_char,
};
use crate::time::{date_reading, read_date, utc_at, utc_instant, CalendarDate, Timestamp};
use vstd::prelude::*;

verus! {

/// A release date as written, without commas and outer white space.
pub open spec fn cleaned(s: Seq<char>) -> Seq<char> {
    trimmed(without_char(s, ','))
}

/// The month that closes a quarter, by the quarter's digit.
pub open spec fn quarter_month(q: char) -> Option<Seq<char>> {
    if q == '1' {
        Some("Mar"@)
    } else if q == '2' {
        Some("Jun"@)
    } else if q == '3' {
        Some("Sep"@)
    } else if q == '4' {
        Some("Dec"@)
    } else {
        None
    }
}

/// A quarter's text rewritten as the month that closes it. The quarter's
/// digit is the second character of the text as it was written; what
/// follows the third character of the cleaned text is kept. There is no
/// rewriting where the digit names no quarter, or where the cleaned text
/// has no third character or one outside ASCII.
pub open spec fn quarter_rewrite(s: Seq<char>, clean: Seq<char>) -> Option<Seq<char>> {
    if s.len() < 2 {
        None
    } else {
        match quarter_month(s[1]) {
            None => None,
            Some(month) => if clean.len() >= 3 && clean[2] <= '\u{7f}' {
                Some(month + seq![' '] + clean.skip(3))
            } else {
                None
            },
        }
    }
}

/// The month and year that a cleaned text is read as: the text itself, or
/// its rewriting where it starts with `Q`.
pub open spec fn month_year_part(s: Seq<char>, clean: Seq<char>) -> Option<Seq<char>> {
    if clean.len() > 0 && clean[0] == 'Q' {
        quarter_rewrite(s, clean)
    } else {
        Some(clean)
    }
}

/// The year that a cleaned text names by itself: the number that it
/// writes, where it is exactly four digits.
pub open spec fn bare_year(clean: Seq<char>) -> Option<i32> {
    if clean.len() == 4 && all_digits(clean) {
        Some(digits_value(clean) as i32)
    } else {
        None
    }
}

/// The first day of the month after that of `date`.
pub open spec fn month_after(date: CalendarDate) -> Option<CalendarDate> {
    if date.month < 12 {
        Some(CalendarDate { year: date.year, month: (date.month + 1) as u32, day: 1 })
    } else if date.year < i32::MAX {
        Some(CalendarDate { year: (date.year + 1) as i32, month: 1, day: 1 })
    } else {
        None
    }
}

/// The first day of the year after `year`.
pub open spec fn year_after(year: i32) -> Option<CalendarDate> {
    if year < i32::MAX {
        Some(CalendarDate { year: (year + 1) as i32, month: 1, day: 1 })
    } else {
        None
    }
}

/// Midnight in UTC at the start of `date`, where there is a date.
pub open spec fn midnight(date: Option<CalendarDate>) -> Option<Timestamp> {
    match date {
        Some(d) => utc_instant(d, 0, 0, 0),
        None => None,
    }
}

/// The estimate for a text that is read as a month and a year: midnight
/// on the first day of the following month.
pub open spec fn month_year_estimate(s: Seq<char>, clean: Seq<char>) -> Option<Timestamp> {
    match month_year_part(s, clean) {
        None => None,
        Some(part) => match date_reading("1 "@ + part, "%d %b %Y"@) {
            Some(d) => midnight(month_after(d)),
            None => None,
        },
    }
}

/// The instant that a release date, as the library provider writes it, is
/// estimated at. The rules are tried in this order: the two texts that say
/// the date is unknown give nothing; an exact day gives its midnight; a
/// year by itself, in four digits, gives the start of the next year; a
/// quarter or a month with a year gives the start of the month after it;
/// anything else gives nothing.
pub open spec fn release_estimate(s: Seq<char>) -> Option<Timestamp> {
    if s == "To be announced"@ || s == "Coming soon"@ {
        None
    } else {
        let clean = cleaned(s);
        match date_reading(clean, "%d %b %Y"@) {
            Some(d) => utc_instant(d, 0, 0, 0),
            None => match bare_year(clean) {
                Some(year) => midnight(year_after(year)),
                None => month_year_estimate(s, clean),
            },
        }
    }
}

/// The two texts that say a release date is not known give no estimate.
pub proof fn lemma_unknown_release_dates()
    ensures
        release_estimate("Coming soon"@) is None,
        release_estimate("To be announced"@) is None,
{
}

/// The first day of the month after that of `date`.
pub fn following_month(date: CalendarDate) -> (r: Option<CalendarDate>)
    ensures
        r == month_after(date),
{
    if date.month < 12 {
        Some(CalendarDate { year: date.year, month: date.month + 1, day: 1 })
    } else if date.year < i32::MAX {
        Some(CalendarDate { year: date.year + 1, month: 1, day: 1 })
    } else {
        None
    }
}

/// The year that a cleaned text names by itself.
pub fn read_bare_year(clean: &str) -> (r: Option<i32>)
    ensures
        r == bare_year(clean@),
{
    let chars = chars_of(clean);
    if chars.len() != 4 {
        return None;
    }
    proof {
        assert(chars@.skip(0) =~= chars@);
        if all_digits(chars@) {
            lemma_digits_value_below(chars@);
            reveal_with_fuel(ten_to, 5);
        }
    }
    match read_digits(&chars, 0, 9999) {
        Some(n) => Some(n as i32),
        None => None,
    }
}

/// The first day of the year after `year`.
pub fn following_year(year: i32) -> (r: Option<CalendarDate>)
    ensures
        r == year_after(year),
{
    if year < i32::MAX {
        Some(CalendarDate { year: year + 1, month: 1, day: 1 })
    } else {
        None
    }
}

/// The text of a release date without commas and outer white space.
pub fn clean_release_text(s: &str) -> (clean: String)
    ensures
        clean@ == cleaned(s@),
{
    let chars = chars_of(s);
    let kept = strip_commas_and_trim(&chars);
    let clean = string_from(&kept, 0);
    assert(kept@.skip(0) =~= kept@);
    clean
}

/// The text that is read as a day, a month and a year when a release date
/// gives a month or a quarter only: `1`, a space, and the month and year.
pub fn month_year_text(s: &str, clean: &str) -> (r: Option<String>)
    ensures
        r is Some <==> month_year_part(s@, clean@) is Some,
        r matches Some(t) ==> t@ == "1 "@ + month_year_part(s@, clean@)->0,
{
    let written = chars_of(s);
    let kept = chars_of(clean);
    let mut out = String::new();
    out.push('1');
    out.push(' ');
    proof {
        reveal_strlit("1 ");
        reveal_strlit("Mar");
        reveal_strlit("Jun");
        reveal_strlit("Sep");
        reveal_strlit("Dec");
        assert(out@ =~= "1 "@);
    }
    if kept.len() > 0 && kept[0] == 'Q' {
        if written.len() < 2 {
            return None;
        }
        let q = written[1];
        if q != '1' && q != '2' && q != '3' && q != '4' {
            return None;
        }
        if kept.len() < 3 || kept[2] > '\u{7f}' {
            return None;
        }
        if q == '1' {
            out.push('M');
            out.push('a');
            out.push('r');
        } else if q == '2' {
            out.push('J');
            out.push('u');
            out.push('n');
        } else if q == '3' {
            out.push('S');
            out.push('e');
            out.push('p');
        } else {
            out.push('D');
            out.push('e');
            out.push('c');
        }
        out.push(' ');
        let ghost head = out@;
        assert(head =~= "1 "@ + (quarter_month(q)->0 + seq![' ']));
        push_chars(&mut out, &kept, 3);
        assert(out@ =~= "1 "@ + (quarter_month(q)->0 + seq![' '] + kept@.skip(3)));
        Some(out)
    } else {
        push_chars(&mut out, &kept, 0);
        assert(kept@.skip(0) =~= kept@);
        Some(out)
    }
}

/// Estimates when a game comes out from the release date as written. The
/// result is an estimate at the late end of what the text allows, and
/// nothing where the text gives no date.
pub fn parse_release_date(s: &str) -> (r: Option<Timestamp>)
    ensures
        r == release_estimate(s@),
{
    if *s == *"To be announced" || *s == *"Coming soon" {
        return None;
    }
    let clean = clean_release_text(s);
    match read_date(clean.as_str(), "%d %b %Y") {
        Some(day) => utc_at(day, 0, 0, 0),
        None => match read_bare_year(clean.as_str()) {
            Some(year) => match following_year(year) {
                Some(first) => utc_at(first, 0, 0, 0),
                None => None,
            },
            None => match month_year_text(s, clean.as_str()) {
                None => None,
                Some(text) => match read_date(text.as_str(), "%d %b %Y") {
                    Some(first) => match following_month(first) {
                        Some(next) => utc_at(next, 0, 0, 0),
                        None => None,
                    },
                    None => None,
                },
            },
        },
    }
}

/// Whether a category says that a game can be played together, over a
/// network or at one screen.
pub open spec fn says_coop(category: u32) -> bool {
    category == 1 || category == 9 || category == 38 || category == 48
}

/// Whether a category says that a game can be played together at one
/// screen.
pub open spec fn says_local_coop(category: u32) -> bool {
    category == 39 || category == 24
}

/// Whether one of the categories says that a game can be played together
/// over a network.
pub open spec fn any_coop(categories: Seq<Category>) -> bool {
    exists|i: int| 0 <= i < categories.len() && says_coop((#[trigger] categories[i]).id)
}

/// Whether one of the categories says that a game can be played together
/// at one screen.
pub open spec fn any_local_coop(categories: Seq<Category>) -> bool {
    exists|i: int| 0 <= i < categories.len() && says_local_coop((#[trigger] categories[i]).id)
}

/// The details that the store keeps of a game, from what the library
/// provider sends of it: the texts and the score are taken over, playing
/// together is read off the categories, a game counts as out when a release
/// date says it is not still to come, and the release is estimated from the
/// date as written.
pub open spec fn details_from(id: GameId, steam: SteamAppDetails, now: Timestamp) -> GameDetails {
    GameDetails {
        id,
        description: steam.short_description,
        controller_support: steam.controller_support,
        coop: any_coop(steam.categories@) || any_local_coop(steam.categories@),
        local_coop: any_local_coop(steam.categories@),
        metacritic_percent: match steam.metacritic {
            Some(m) => Some(m.score),
            None => None,
        },
        is_released: match steam.release_date {
            Some(d) => !d.coming_soon,
            None => false,
        },
        release_date: match steam.release_date {
            Some(d) => Some(d.date),
            None => None,
        },
        release_estimate: match steam.release_date {
            Some(d) => release_estimate(d.date@),
            None => None,
        },
        recorded: now,
    }
}

/// The details that the store keeps of a game, from what the library
/// provider sends of it, recorded at `now`.
pub fn extract_game_details(id: &GameId, steam: &SteamAppDetails, now: &Timestamp) -> (r:
    GameDetails)
    ensures
        r == details_from(*id, *steam, *now),
{
    let mut coop = false;
    let mut local_coop = false;
    let mut i: usize = 0;
    while i < steam.categories.len()
        invariant
            i <= steam.categories.len(),
            coop == any_coop(steam.categories@.take(i as int)),
            local_coop == any_local_coop(steam.categories@.take(i as int)),
        decreases steam.categories.len() - i,
    {
        let c = steam.categories[i].id;
        let ghost before = steam.categories@.take(i as int);
        let ghost after = steam.categories@.take(i + 1);
        proof {
            assert(after[i as int] == steam.categories@[i as int]);
            if any_coop(before) {
                let w = choose|w: int| 0 <= w < before.len() && says_coop((#[trigger] before[w]).id);
                assert(after[w] == before[w]);
            }
            if any_local_coop(before) {
                let w = choose|w: int|
                    0 <= w < before.len() && says_local_coop((#[trigger] before[w]).id);
                assert(after[w] == before[w]);
            }
            if any_coop(after) && !says_coop(c) {
                let w = choose|w: int| 0 <= w < after.len() && says_coop((#[trigger] after[w]).id);
                assert(before[w] == after[w]);
            }
            if any_local_coop(after) && !says_local_coop(c) {
                let w = choose|w: int|
                    0 <= w < after.len() && says_local_coop((#[trigger] after[w]).id);
                assert(before[w] == after[w]);
            }
        }
        if c == 1 || c == 9 || c == 38 || c == 48 {
            coop = true;
        }
        if c == 39 || c == 24 {
            local_coop = true;
        }
        i += 1;
    }
    assert(steam.categories@.take(i as int) =~= steam.categories@);
    let (is_released, release_date, release_estimate) = match &steam.release_date {
        Some(d) => (!d.coming_soon, Some(d.date.clone()), parse_release_date(d.date.as_str())),
        None => (false, None, None),
    };
    GameDetails {
        id: *id,
        description: clone_optional(&steam.short_description),
        controller_support: clone_optional(&steam.controller_support),
        coop: coop || local_coop,
        local_coop,
        metacritic_percent: match steam.metacritic {
            Some(m) => Some(m.score),
            None => None,
        },
        is_released,
        release_date,
        release_estimate,
        recorded: *now,
    }
}

} // verus!
