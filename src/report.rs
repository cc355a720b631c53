//! The observation report: what the player owns, has observed, and could
//! observe next, as lines of text.
use vstd::prelude::*;

use crate::seq_sets::views;
use crate::state::GameState;
use crate::types::{AstroObject, AstroObjectCategory, ObjectModel, TelescopeModel};

verus! {

/// The decimal digits of `n`, most significant first.
pub open spec fn digits(n: nat) -> Seq<char>
    decreases n,
{
    let digit = seq!['0', '1', '2', '3', '4', '5', '6', '7', '8', '9'][(n % 10) as int];
    if n < 10 {
        seq![digit]
    } else {
        digits(n / 10).push(digit)
    }
}

/// `n` written in decimal, with a leading `-` when it is negative.
pub open spec fn decimal(n: int) -> Seq<char> {
    if n < 0 {
        seq!['-'] + digits((-n) as nat)
    } else {
        digits(n as nat)
    }
}

/// Relies on std's `ToString` for `i128`, which writes the number in decimal.
#[verifier::external_body]
fn decimal_text(n: i128) -> (r: String)
    ensures
        r@ == decimal(n as int),
{
    n.to_string()
}

/// The name of a category.
pub open spec fn category_name(c: AstroObjectCategory) -> Seq<char> {
    match c {
        AstroObjectCategory::Star => "Star"@,
        AstroObjectCategory::Galaxy => "Galaxy"@,
        AstroObjectCategory::AlienShip => "AlienShip"@,
    }
}

/// How an object is described to the player.
pub open spec fn description(o: ObjectModel) -> Seq<char> {
    "\""@ + o.name + "\", a "@ + category_name(o.category) + " with "@ + decimal(
        o.detail.len() as int,
    ) + " levels of observable detail"@
}

pub open spec fn telescope_line(t: TelescopeModel) -> Seq<char> {
    "  "@ + t.name + " (resolving power: "@ + decimal(t.max_power) + ")"@
}

pub open spec fn observed_line(o: ObjectModel, level: nat) -> Seq<char> {
    "  "@ + o.name + " (at detail level "@ + decimal(level as int) + ")"@
}

pub open spec fn observable_line(o: ObjectModel) -> Seq<char> {
    "  "@ + description(o) + " (needs power of "@ + decimal(o.power_needed) + ")"@
}

pub open spec fn power_line(power: int) -> Seq<char> {
    "With resolving power "@ + decimal(power) + ", You could also observe:"@
}

/// The lines of a section, or a single line saying there is nothing.
pub open spec fn or_nothing(lines: Seq<Seq<char>>) -> Seq<Seq<char>> {
    if lines.len() == 0 {
        seq!["  nothing"@]
    } else {
        lines
    }
}

/// The report on a session: the telescopes owned, the objects observed with
/// the level reached, and the objects that could be observed next.
pub open spec fn report_lines(s: &GameState) -> Seq<Seq<char>> {
    seq!["\n====== OBSERVATION REPORT ======"@, "You have these observing devices:"@] + or_nothing(
        views(s.telescopes@).map_values(|t: TelescopeModel| telescope_line(t)),
    ) + seq!["You have observed these astronomical objects:"@] + or_nothing(
        s.observed@.map_values(|p: (AstroObject, usize)| observed_line(p.0@, p.1 as nat)),
    ) + seq![power_line(s.max_power as int)] + or_nothing(
        views(s.observables@).map_values(|o: ObjectModel| observable_line(o)),
    ) + seq!["================================"@]
}

/// The text of each line, in order.
pub open spec fn texts(lines: Seq<String>) -> Seq<Seq<char>> {
    lines.map_values(|l: String| l@)
}

fn category_text(c: AstroObjectCategory) -> (r: String)
    ensures
        r@ == category_name(c),
{
    match c {
        AstroObjectCategory::Star => String::from_str("Star"),
        AstroObjectCategory::Galaxy => String::from_str("Galaxy"),
        AstroObjectCategory::AlienShip => String::from_str("AlienShip"),
    }
}

impl AstroObject {
    /// How the object is described to the player: its name in quotes, its
    /// category and the number of its tiers.
    pub fn to_string(&self) -> (r: String)
        ensures
            r@ == description(self@),
    {
        let mut r = String::from_str("\"");
        r.append(self.name.as_str());
        r.append("\", a ");
        let category = category_text(self.category);
        r.append(category.as_str());
        r.append(" with ");
        let count = decimal_text(self.detail.len() as i128);
        r.append(count.as_str());
        r.append(" levels of observable detail");
        proof {
            assert(self@.detail.len() == self.detail@.len());
        }
        r
    }
}

/// Appends a line, or the line saying there is nothing when `section` is
/// empty.
fn push_section(lines: &mut Vec<String>, section: Vec<String>)
    ensures
        texts(final(lines)@) == texts(old(lines)@) + or_nothing(texts(section@)),
{
    if section.len() == 0 {
        lines.push(String::from_str("  nothing"));
        proof {
            assert(texts(final(lines)@) =~= texts(old(lines)@) + or_nothing(texts(section@)));
        }
    } else {
        let mut i: usize = 0;
        while i < section.len()
            invariant
                i <= section@.len(),
                texts(lines@) == texts(old(lines)@) + texts(section@.take(i as int)),
            decreases section@.len() - i,
        {
            let ghost before = lines@;
            lines.push(section[i].clone());
            proof {
                assert(texts(lines@) =~= texts(before).push(section@[i as int]@));
                assert(texts(section@.take(i + 1)) =~= texts(section@.take(i as int)).push(
                    section@[i as int]@,
                ));
                assert(texts(lines@) =~= texts(old(lines)@) + texts(section@.take(i + 1)));
            }
            i = i + 1;
        }
        proof {
            assert(section@.take(section@.len() as int) =~= section@);
        }
    }
}

impl GameState {
    /// The observation report, one line per entry, for the host to write to
    /// its log.
    pub fn log(&self) -> (r: Vec<String>)
        ensures
            texts(r@) == report_lines(self),
    {
        let mut lines: Vec<String> = Vec::new();
        lines.push(String::from_str("\n====== OBSERVATION REPORT ======"));
        lines.push(String::from_str("You have these observing devices:"));
        let ghost head = seq!["\n====== OBSERVATION REPORT ======"@, "You have these observing devices:"@];
        proof {
            assert(texts(lines@) =~= head);
        }
        let mut section: Vec<String> = Vec::new();
        let mut i: usize = 0;
        while i < self.telescopes.len()
            invariant
                i <= self.telescopes@.len(),
                texts(section@) == views(self.telescopes@.take(i as int)).map_values(
                    |t: TelescopeModel| telescope_line(t),
                ),
            decreases self.telescopes@.len() - i,
        {
            let t = &self.telescopes[i];
            let mut line = String::from_str("  ");
            line.append(t.name.as_str());
            line.append(" (resolving power: ");
            let power = decimal_text(t.max_power as i128);
            line.append(power.as_str());
            line.append(")");
            let ghost before = section@;
            section.push(line);
            proof {
                assert(texts(section@) =~= texts(before).push(telescope_line(t@)));
                assert(views(self.telescopes@.take(i + 1)) =~= views(self.telescopes@.take(i as int)).push(t@));
                assert(texts(section@) =~= views(self.telescopes@.take(i + 1)).map_values(
                    |t: TelescopeModel| telescope_line(t),
                ));
            }
            i = i + 1;
        }
        proof {
            assert(self.telescopes@.take(self.telescopes@.len() as int) =~= self.telescopes@);
        }
        push_section(&mut lines, section);
        lines.push(String::from_str("You have observed these astronomical objects:"));
        let ghost owned = or_nothing(
            views(self.telescopes@).map_values(|t: TelescopeModel| telescope_line(t)),
        );
        proof {
            assert(texts(lines@) =~= head + owned + seq!["You have observed these astronomical objects:"@]);
        }
        let mut section: Vec<String> = Vec::new();
        let mut i: usize = 0;
        while i < self.observed.len()
            invariant
                i <= self.observed@.len(),
                texts(section@) == self.observed@.take(i as int).map_values(
                    |p: (AstroObject, usize)| observed_line(p.0@, p.1 as nat),
                ),
            decreases self.observed@.len() - i,
        {
            let entry = &self.observed[i];
            let mut line = String::from_str("  ");
            line.append(entry.0.name.as_str());
            line.append(" (at detail level ");
            let level = decimal_text(entry.1 as i128);
            line.append(level.as_str());
            line.append(")");
            let ghost before = section@;
            section.push(line);
            proof {
                assert(texts(section@) =~= texts(before).push(observed_line(entry.0@, entry.1 as nat)));
                assert(self.observed@.take(i + 1) =~= self.observed@.take(i as int).push(*entry));
                assert(texts(section@) =~= self.observed@.take(i + 1).map_values(
                    |p: (AstroObject, usize)| observed_line(p.0@, p.1 as nat),
                ));
            }
            i = i + 1;
        }
        proof {
            assert(self.observed@.take(self.observed@.len() as int) =~= self.observed@);
        }
        let ghost before = texts(lines@);
        push_section(&mut lines, section);
        let mut line = String::from_str("With resolving power ");
        let power = decimal_text(self.max_power as i128);
        line.append(power.as_str());
        line.append(", You could also observe:");
        lines.push(line);
        let ghost observed = or_nothing(
            self.observed@.map_values(|p: (AstroObject, usize)| observed_line(p.0@, p.1 as nat)),
        );
        proof {
            assert(texts(lines@) =~= before + observed + seq![power_line(self.max_power as int)]);
        }
        let mut section: Vec<String> = Vec::new();
        let mut i: usize = 0;
        while i < self.observables.len()
            invariant
                i <= self.observables@.len(),
                texts(section@) == views(self.observables@.take(i as int)).map_values(
                    |o: ObjectModel| observable_line(o),
                ),
            decreases self.observables@.len() - i,
        {
            let o = &self.observables[i];
            let mut line = String::from_str("  ");
            let described = o.to_string();
            line.append(described.as_str());
            line.append(" (needs power of ");
            let power = decimal_text(o.power_needed as i128);
            line.append(power.as_str());
            line.append(")");
            let ghost before = section@;
            section.push(line);
            proof {
                assert(texts(section@) =~= texts(before).push(observable_line(o@)));
                assert(views(self.observables@.take(i + 1)) =~= views(self.observables@.take(i as int)).push(o@));
                assert(texts(section@) =~= views(self.observables@.take(i + 1)).map_values(
                    |o: ObjectModel| observable_line(o),
                ));
            }
            i = i + 1;
        }
        proof {
            assert(self.observables@.take(self.observables@.len() as int) =~= self.observables@);
        }
        let ghost before = texts(lines@);
        push_section(&mut lines, section);
        lines.push(String::from_str("================================"));
        let ghost observable = or_nothing(
            views(self.observables@).map_values(|o: ObjectModel| observable_line(o)),
        );
        proof {
            assert(texts(lines@) =~= before + observable + seq!["================================"@]);
            assert(texts(lines@) =~= report_lines(self));
        }
        lines
    }
}

} // verus!
