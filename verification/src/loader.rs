//! The record loader: one row per line in the shape
//! `last,first,day.month.year,gender,[url]`; malformed lines are skipped,
//! each with a diagnostic unless quiet mode suppresses them.

use vstd::prelude::*;
use vstd::string::StringExecFns;
use crate::parse::{spec_split, spec_parse_date, split_on, parse_date};
use crate::person::{Person, PersonView, PhotoState, PhotoStateView};

verus! {

/// The record a well-formed row denotes: four or five comma-separated
/// fields — last name, first name, birthday in the `day.month.year` pattern,
/// a single gender character, and an optional photo URL, where a missing or
/// empty fifth field means no photo. The photo slot starts out `Unloaded`.
pub open spec fn spec_parse_row(s: Seq<char>) -> Option<PersonView> {
    let fields = spec_split(s, ',');
    if (fields.len() == 4 || fields.len() == 5) && fields[3].len() == 1 {
        match spec_parse_date(fields[2]) {
            Some(bd) => Some(
                PersonView {
                    last_name: fields[0],
                    first_name: fields[1],
                    birthday: bd,
                    gender: fields[3][0],
                    photo_url: if fields.len() == 5 && fields[4].len() > 0 {
                        Some(fields[4])
                    } else {
                        None
                    },
                    photo_state: PhotoStateView::Unloaded,
                },
            ),
            None => None,
        }
    } else {
        None
    }
}

/// Parses one row; rejects exactly the rows that `spec_parse_row` rejects.
pub fn parse_row(line: &str) -> (r: Option<Person>)
    ensures
        r.deep_view() == spec_parse_row(line@),
        (r matches Some(p) ==> p.wf()),
{
    let fields = split_on(line, ',');
    if !(fields.len() == 4 || fields.len() == 5) {
        return None;
    }
    if fields[3].as_str().unicode_len() != 1 {
        return None;
    }
    let gender = fields[3].as_str().get_char(0);
    let birthday = match parse_date(fields[2].as_str()) {
        Some(d) => d,
        None => {
            return None;
        },
    };
    let photo_url = if fields.len() == 5 && fields[4].as_str().unicode_len() > 0 {
        Some(fields[4].clone())
    } else {
        None
    };
    Some(
        Person {
            last_name: fields[0].clone(),
            first_name: fields[1].clone(),
            birthday,
            gender,
            photo_url,
            photo_state: PhotoState::Unloaded,
        },
    )
}

/// The records of the well-formed lines, in file order.
pub open spec fn spec_loaded(lines: Seq<Seq<char>>) -> Seq<PersonView>
    decreases lines.len(),
{
    if lines.len() == 0 {
        Seq::empty()
    } else {
        let rest = spec_loaded(lines.drop_last());
        match spec_parse_row(lines.last()) {
            Some(p) => rest.push(p),
            None => rest,
        }
    }
}

/// The diagnostic emitted for one malformed line.
pub open spec fn spec_diag(line: Seq<char>) -> Seq<char> {
    "error reading line: "@ + line
}

/// The diagnostics of the malformed lines, in file order.
pub open spec fn spec_diagnostics(lines: Seq<Seq<char>>) -> Seq<Seq<char>>
    decreases lines.len(),
{
    if lines.len() == 0 {
        Seq::empty()
    } else {
        let rest = spec_diagnostics(lines.drop_last());
        match spec_parse_row(lines.last()) {
            Some(p) => rest,
            None => rest.push(spec_diag(lines.last())),
        }
    }
}

/// How many lines are well-formed.
pub open spec fn spec_wellformed_count(lines: Seq<Seq<char>>) -> int
    decreases lines.len(),
{
    if lines.len() == 0 {
        0
    } else {
        spec_wellformed_count(lines.drop_last()) + (if spec_parse_row(lines.last()) is Some {
            1int
        } else {
            0int
        })
    }
}

/// Loading `n` well-formed and `m` malformed lines yields exactly `n`
/// records and, without quiet mode, exactly `m` diagnostics.
pub proof fn lemma_load_counts(lines: Seq<Seq<char>>)
    ensures
        spec_loaded(lines).len() == spec_wellformed_count(lines),
        spec_diagnostics(lines).len() == lines.len() - spec_wellformed_count(lines),
    decreases lines.len(),
{
    if lines.len() > 0 {
        lemma_load_counts(lines.drop_last());
    }
}

/// Loads the lines of the input file: the records of the well-formed lines
/// in file order, and one diagnostic per malformed line — none at all under
/// quiet mode. A malformed line never aborts the load.
pub fn load_records(lines: &Vec<String>, quiet: bool) -> (r: (Vec<Person>, Vec<String>))
    ensures
        r.0.deep_view() == spec_loaded(lines.deep_view()),
        r.1.deep_view() == (if quiet {
            Seq::<Seq<char>>::empty()
        } else {
            spec_diagnostics(lines.deep_view())
        }),
        forall|i: int| 0 <= i < r.0.len() ==> (#[trigger] r.0[i]).wf(),
{
    let mut persons: Vec<Person> = Vec::new();
    let mut diags: Vec<String> = Vec::new();
    let mut i: usize = 0;
    while i < lines.len()
        invariant
            i <= lines.len(),
            persons.deep_view() == spec_loaded(lines.deep_view().subrange(0, i as int)),
            diags.deep_view() == (if quiet {
                Seq::<Seq<char>>::empty()
            } else {
                spec_diagnostics(lines.deep_view().subrange(0, i as int))
            }),
            forall|j: int| 0 <= j < persons.len() ==> (#[trigger] persons[j]).wf(),
        decreases lines.len() - i,
    {
        proof {
            assert(lines.deep_view().subrange(0, i as int + 1).drop_last() =~= lines.deep_view()
                .subrange(0, i as int));
            assert(lines.deep_view().subrange(0, i as int + 1).last() == lines[i as int]@);
        }
        match parse_row(lines[i].as_str()) {
            Some(p) => {
                persons.push(p);
                proof {
                    assert(persons.deep_view() =~= spec_loaded(
                        lines.deep_view().subrange(0, i as int + 1),
                    ));
                }
            },
            None => {
                if !quiet {
                    let mut d = String::from_str("error reading line: ");
                    d.append(lines[i].as_str());
                    diags.push(d);
                    proof {
                        assert(diags.deep_view() =~= spec_diagnostics(
                            lines.deep_view().subrange(0, i as int + 1),
                        ));
                    }
                }
            },
        }
        i = i + 1;
    }
    proof {
        assert(lines.deep_view().subrange(0, lines.len() as int) =~= lines.deep_view());
    }
    (persons, diags)
}

} // verus!
